//! Serializing an unsigned integral value into the fixed-width byte layout
//! the token interface expects.

use vstd::prelude::*;

use crate::error::Error;

verus! {

/// A value laid out in `width` bytes, least significant byte first — the
/// native order of the targets this module runs on.
pub open spec fn spec_uint_bytes(value: nat, width: nat) -> Seq<u8>
    decreases width,
{
    if width == 0 {
        Seq::empty()
    } else {
        seq![(value % 256) as u8] + spec_uint_bytes(value / 256, (width - 1) as nat)
    }
}

/// The largest value `width` bytes can carry, for widths of one to eight.
pub open spec fn spec_uint_max(width: nat) -> nat {
    if width == 1 {
        0xff
    } else if width == 2 {
        0xffff
    } else if width == 3 {
        0xff_ffff
    } else if width == 4 {
        0xffff_ffff
    } else if width == 5 {
        0xff_ffff_ffff
    } else if width == 6 {
        0xffff_ffff_ffff
    } else if width == 7 {
        0xff_ffff_ffff_ffff
    } else if width == 8 {
        0xffff_ffff_ffff_ffff
    } else {
        0
    }
}

/// The largest value `width` bytes can carry, for widths of one to eight.
fn uint_max(width: usize) -> (r: u64)
    requires
        1 <= width <= 8,
    ensures
        r == spec_uint_max(width as nat),
{
    if width == 1 {
        0xff
    } else if width == 2 {
        0xffff
    } else if width == 3 {
        0xff_ffff
    } else if width == 4 {
        0xffff_ffff
    } else if width == 5 {
        0xff_ffff_ffff
    } else if width == 6 {
        0xffff_ffff_ffff
    } else if width == 7 {
        0xff_ffff_ffff_ffff
    } else {
        0xffff_ffff_ffff_ffff
    }
}

/// Takes a value and lays it out in memory in `width` bytes, as the token
/// interface expects it.  `width` is the storage width of the caller's
/// integral type.  A value beyond 64 bits is too large; a width outside
/// one to eight bytes, or a value that does not fit it, cannot be written
/// and is an internal failure, as the widths handed in are pre-validated.
pub fn serialize_uint(value: u128, width: usize) -> (r: Result<Vec<u8>, Error>)
    ensures
        match r {
            Ok(buf) => {
                &&& value <= u64::MAX
                &&& 1 <= width <= 8
                &&& value <= spec_uint_max(width as nat)
                &&& buf@ == spec_uint_bytes(value as nat, width as nat)
                &&& buf@.len() == width
            },
            Err(e) => match e {
                Error::ValueTooLarge => value > u64::MAX,
                Error::LibraryFailure => {
                    &&& value <= u64::MAX
                    &&& (width < 1 || width > 8 || value > spec_uint_max(width as nat))
                },
                _ => false,
            },
        },
{
    if value > u64::MAX as u128 {
        return Err(Error::ValueTooLarge);
    }
    let value64 = value as u64;
    if width < 1 || width > 8 {
        return Err(Error::LibraryFailure);
    }
    if value64 > uint_max(width) {
        return Err(Error::LibraryFailure);
    }
    let mut buf: Vec<u8> = Vec::new();
    let mut v = value64;
    let mut i: usize = 0;
    while i < width
        invariant
            i <= width,
            buf@.len() == i,
            spec_uint_bytes(value64 as nat, width as nat) == buf@ + spec_uint_bytes(
                v as nat,
                (width - i) as nat,
            ),
        decreases width - i,
    {
        let ghost buf_old = buf@;
        let ghost v_old = v as nat;
        buf.push((v % 256) as u8);
        proof {
            let tail = spec_uint_bytes(v_old / 256, (width - i - 1) as nat);
            assert(spec_uint_bytes(v_old, (width - i) as nat) == seq![(v_old % 256) as u8] + tail);
            assert(buf_old + (seq![(v_old % 256) as u8] + tail) =~= (buf_old + seq![(v_old % 256)
                as u8]) + tail);
            assert(buf@ =~= buf_old + seq![(v_old % 256) as u8]);
        }
        v = v / 256;
        i += 1;
    }
    proof {
        assert(spec_uint_bytes(v as nat, 0) =~= Seq::<u8>::empty());
        assert(buf@ + Seq::<u8>::empty() =~= buf@);
    }
    Ok(buf)
}

} // verus!
