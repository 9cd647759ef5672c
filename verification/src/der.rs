//! A cursor over raw DER bytes that reads one tag-length-value (TLV) item at
//! a time, enforcing canonical (minimal) length encodings.

use vstd::prelude::*;
use vstd::slice::slice_subrange;

use crate::error::Error;

verus! {

/// ASN.1 tag identifying an integer.
pub const INTEGER: u8 = 0x02;

/// ASN.1 tag identifying an octet string.
pub const OCTET_STRING: u8 = 0x04;

/// ASN.1 tag identifying a null value.
pub const NULL: u8 = 0x05;

/// ASN.1 tag identifying an object identifier (OID).
pub const OBJECT_IDENTIFIER: u8 = 0x06;

/// ASN.1 tag identifying a sequence.
pub const SEQUENCE: u8 = 0x10;

/// ASN.1 tag modifier identifying an item as constructed.
pub const CONSTRUCTED: u8 = 0x20;

/// ASN.1 tag modifier identifying an item as context-specific.
pub const CONTEXT_SPECIFIC: u8 = 0x80;

/// Helper for `spec_read_tlv`: after the tag and the length encoding have
/// been read (`header` bytes in all), take `length` value bytes and return
/// (length-encoding bytes, value, unread rest).
pub open spec fn spec_tlv_value(
    data: Seq<u8>,
    length_bytes: Seq<u8>,
    header: nat,
    length: nat,
) -> Result<(Seq<u8>, Seq<u8>, Seq<u8>), Error> {
    if data.len() < header + length {
        Err(Error::TruncatedInput)
    } else {
        Ok(
            (
                length_bytes,
                data.subrange(header as int, (header + length) as int),
                data.subrange((header + length) as int, data.len() as int),
            ),
        )
    }
}

/// What reading one TLV item with the expected tag from `data` yields: on
/// success, the literal length-encoding bytes, the value bytes, and the
/// bytes left unread.
///
/// The length octets are interpreted per DER: one byte below 0x80 is the
/// length itself; 0x81 announces one further length byte, which must be at
/// least 0x80; 0x82 announces two further big-endian length bytes, which
/// must encode at least 256; anything else (0x80 indefinite form, or three
/// and more length bytes) is unsupported.  The minimality checks reject
/// lengths that should have used a shorter form.
pub open spec fn spec_read_tlv(data: Seq<u8>, tag: u8) -> Result<(Seq<u8>, Seq<u8>, Seq<u8>), Error> {
    if data.len() < 1 {
        Err(Error::TruncatedInput)
    } else if data[0] != tag {
        Err(Error::InvalidInput)
    } else if data.len() < 2 {
        Err(Error::TruncatedInput)
    } else {
        let l1 = data[1];
        if l1 < 0x80 {
            spec_tlv_value(data, seq![l1], 2, l1 as nat)
        } else if l1 == 0x81 {
            if data.len() < 3 {
                Err(Error::TruncatedInput)
            } else if data[2] < 0x80 {
                Err(Error::InvalidInput)
            } else {
                spec_tlv_value(data, seq![l1, data[2]], 3, data[2] as nat)
            }
        } else if l1 == 0x82 {
            if data.len() < 4 {
                Err(Error::TruncatedInput)
            } else {
                let length = data[2] as nat * 256 + data[3] as nat;
                if length < 256 {
                    Err(Error::InvalidInput)
                } else {
                    spec_tlv_value(data, seq![l1, data[2], data[3]], 4, length)
                }
            }
        } else {
            Err(Error::UnsupportedInput)
        }
    }
}

/// The header a buffer declares, if it declares one: the number of bytes
/// taken by the tag plus the length encoding, and the declared value length.
pub open spec fn spec_tlv_declared_length(data: Seq<u8>) -> Option<(nat, nat)> {
    if data.len() < 2 {
        None
    } else {
        let l1 = data[1];
        if l1 < 0x80 {
            Some((2nat, l1 as nat))
        } else if l1 == 0x81 {
            if data.len() >= 3 && data[2] >= 0x80 {
                Some((3nat, data[2] as nat))
            } else {
                None
            }
        } else if l1 == 0x82 {
            if data.len() >= 4 && data[2] as nat * 256 + data[3] as nat >= 256 {
                Some((4nat, data[2] as nat * 256 + data[3] as nat))
            } else {
                None
            }
        } else {
            None
        }
    }
}

/// A buffer that declares a well-formed length but holds fewer value bytes
/// than declared is always rejected as truncated.
pub proof fn lemma_short_buffer_is_truncated(data: Seq<u8>, tag: u8, header: nat, length: nat)
    requires
        data.len() >= 1,
        data[0] == tag,
        spec_tlv_declared_length(data) == Some((header, length)),
        data.len() < header + length,
    ensures
        spec_read_tlv(data, tag) == Err::<(Seq<u8>, Seq<u8>, Seq<u8>), Error>(Error::TruncatedInput),
{
}

/// Length encodings must be canonical: a two-byte form announcing a length
/// that fits the short form is invalid, whatever follows it.
pub proof fn lemma_non_minimal_two_byte_length(data: Seq<u8>, tag: u8)
    requires
        data.len() >= 3,
        data[0] == tag,
        data[1] == 0x81,
        data[2] < 0x80,
    ensures
        spec_read_tlv(data, tag) == Err::<(Seq<u8>, Seq<u8>, Seq<u8>), Error>(Error::InvalidInput),
{
}

/// Length encodings must be canonical: a three-byte form announcing a
/// length that fits two bytes is invalid, whatever follows it.
pub proof fn lemma_non_minimal_three_byte_length(data: Seq<u8>, tag: u8)
    requires
        data.len() >= 4,
        data[0] == tag,
        data[1] == 0x82,
        (data[2] as nat) * 256 + (data[3] as nat) < 256,
    ensures
        spec_read_tlv(data, tag) == Err::<(Seq<u8>, Seq<u8>, Seq<u8>), Error>(Error::InvalidInput),
{
}

/// The indefinite length form (0x80) and every form of three or more
/// length bytes are unsupported, whatever follows them.
pub proof fn lemma_unsupported_length_form(data: Seq<u8>, tag: u8)
    requires
        data.len() >= 2,
        data[0] == tag,
        data[1] == 0x80 || data[1] >= 0x83,
    ensures
        spec_read_tlv(data, tag) == Err::<(Seq<u8>, Seq<u8>, Seq<u8>), Error>(Error::UnsupportedInput),
{
}

/// A cursor for reading DER data.  The unread contents shrink as data is
/// read; `self@` is the sequence of bytes not yet consumed.
pub struct Der<'a> {
    contents: &'a [u8],
}

impl<'a> View for Der<'a> {
    type V = Seq<u8>;

    closed spec fn view(&self) -> Seq<u8> {
        self.contents@
    }
}

impl<'a> Der<'a> {
    /// A cursor positioned at the start of `contents`.
    pub fn new(contents: &'a [u8]) -> (d: Der<'a>)
        ensures
            d@ == contents@,
    {
        Der { contents }
    }

    /// Reads the next TLV item, which must carry the expected tag, and
    /// advances past it.  Returns the tag, the literal length-encoding
    /// bytes, and the value; on failure the cursor is unchanged.
    pub fn read_tlv(&mut self, tag: u8) -> (r: Result<(u8, Vec<u8>, &'a [u8]), Error>)
        ensures
            match r {
                Ok((t, length_bytes, value)) => {
                    &&& spec_read_tlv(old(self)@, tag) matches Ok((lb, v, rest))
                        && length_bytes@ == lb
                        && value@ == v
                        && final(self)@ == rest
                    &&& t == tag
                },
                Err(e) => {
                    &&& spec_read_tlv(old(self)@, tag) == Err::<(Seq<u8>, Seq<u8>, Seq<u8>), Error>(e)
                    &&& final(self)@ == old(self)@
                },
            },
    {
        let contents = self.contents;
        if contents.len() < 1 {
            return Err(Error::TruncatedInput);
        }
        let tag_read = contents[0];
        if tag_read != tag {
            return Err(Error::InvalidInput);
        }
        if contents.len() < 2 {
            return Err(Error::TruncatedInput);
        }
        let l1 = contents[1];
        let mut length_bytes: Vec<u8> = Vec::new();
        length_bytes.push(l1);
        let length: usize;
        let header: usize;
        if l1 < 0x80 {
            length = l1 as usize;
            header = 2;
            proof {
                assert(length_bytes@ =~= seq![l1]);
            }
        } else if l1 == 0x81 {
            if contents.len() < 3 {
                return Err(Error::TruncatedInput);
            }
            let l2 = contents[2];
            length_bytes.push(l2);
            if l2 < 0x80 {
                return Err(Error::InvalidInput);
            }
            length = l2 as usize;
            header = 3;
            proof {
                assert(length_bytes@ =~= seq![l1, l2]);
            }
        } else if l1 == 0x82 {
            if contents.len() < 4 {
                return Err(Error::TruncatedInput);
            }
            let l2 = contents[2];
            let l3 = contents[3];
            length_bytes.push(l2);
            length_bytes.push(l3);
            let n = (l2 as usize) * 256 + (l3 as usize);
            if n < 256 {
                return Err(Error::InvalidInput);
            }
            length = n;
            header = 4;
            proof {
                assert(length_bytes@ =~= seq![l1, l2, l3]);
            }
        } else {
            return Err(Error::UnsupportedInput);
        }
        if contents.len() - header < length {
            return Err(Error::TruncatedInput);
        }
        let value = slice_subrange(contents, header, header + length);
        self.contents = slice_subrange(contents, header + length, contents.len());
        Ok((tag, length_bytes, value))
    }

    /// True iff no bytes remain unread.
    pub fn at_end(&self) -> (r: bool)
        ensures
            r <==> self@.len() == 0,
    {
        self.contents.len() == 0
    }

    /// True iff the next unread byte equals `expected`, without consuming it.
    pub fn peek(&self, expected: u8) -> (r: bool)
        ensures
            r <==> self@.len() > 0 && self@[0] == expected,
    {
        if self.contents.len() > 0 {
            self.contents[0] == expected
        } else {
            false
        }
    }

    /// Takes all remaining bytes, leaving the cursor at the end.
    pub fn read_rest(&mut self) -> (r: &'a [u8])
        ensures
            r@ == old(self)@,
            final(self)@ == Seq::<u8>::empty(),
    {
        let contents = self.contents;
        self.contents = slice_subrange(contents, contents.len(), contents.len());
        proof {
            assert(self@ =~= Seq::<u8>::empty());
        }
        contents
    }
}

} // verus!
