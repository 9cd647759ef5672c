//! Typed reading of the contents of one DER SEQUENCE, built on the byte
//! cursor of `der`.

use vstd::prelude::*;

use crate::der::{
    Der, CONSTRUCTED, CONTEXT_SPECIFIC, INTEGER, NULL, OBJECT_IDENTIFIER, OCTET_STRING, SEQUENCE,
    spec_read_tlv,
};
use crate::error::Error;

verus! {

/// A DER INTEGER's content bytes with a single superfluous leading zero
/// byte removed.  The zero is kept only when it is the whole content.
pub open spec fn spec_strip_leading_zero(value: Seq<u8>) -> Seq<u8> {
    if value.len() > 1 && value[0] == 0 {
        value.drop_first()
    } else {
        value
    }
}

/// What constructing a sequence reader from `input` yields: the contents of
/// the one outer SEQUENCE, which must consume the entire input.
pub open spec fn spec_sequence_new(input: Seq<u8>) -> Result<Seq<u8>, Error> {
    match spec_read_tlv(input, SEQUENCE | CONSTRUCTED) {
        Ok((length_bytes, value, rest)) => {
            if rest.len() == 0 {
                Ok(value)
            } else {
                Err(Error::ExtraInput)
            }
        },
        Err(e) => Err(e),
    }
}

/// Reading one TLV item with the given tag out of `data`: the value and the
/// bytes left over.
pub open spec fn spec_read_tagged(data: Seq<u8>, tag: u8) -> Result<(Seq<u8>, Seq<u8>), Error> {
    match spec_read_tlv(data, tag) {
        Ok((length_bytes, value, rest)) => Ok((value, rest)),
        Err(e) => Err(e),
    }
}

/// Reading an INTEGER out of `data`: empty contents are invalid, and a
/// single superfluous leading zero byte is stripped.
pub open spec fn spec_read_unsigned_integer(data: Seq<u8>) -> Result<(Seq<u8>, Seq<u8>), Error> {
    match spec_read_tlv(data, INTEGER) {
        Ok((length_bytes, value, rest)) => {
            if value.len() == 0 {
                Err(Error::InvalidInput)
            } else {
                Ok((spec_strip_leading_zero(value), rest))
            }
        },
        Err(e) => Err(e),
    }
}

/// Reading a NULL out of `data`: its contents must be empty; yields the
/// bytes left over.
pub open spec fn spec_read_null(data: Seq<u8>) -> Result<Seq<u8>, Error> {
    match spec_read_tlv(data, NULL) {
        Ok((length_bytes, value, rest)) => {
            if value.len() == 0 {
                Ok(rest)
            } else {
                Err(Error::InvalidInput)
            }
        },
        Err(e) => Err(e),
    }
}

/// Reading an optional context-specific constructed item with the given tag
/// number: absence is not a failure, and leaves the data untouched.
pub open spec fn spec_read_optional_tagged_value(data: Seq<u8>, tag: u8) -> Result<
    (Option<Seq<u8>>, Seq<u8>),
    Error,
> {
    let expected = CONTEXT_SPECIFIC | CONSTRUCTED | tag;
    if data.len() > 0 && data[0] == expected {
        match spec_read_tlv(data, expected) {
            Ok((length_bytes, value, rest)) => Ok((Some(value), rest)),
            Err(e) => Err(e),
        }
    } else {
        Ok((None, data))
    }
}

/// Reading one TLV item and re-serializing it verbatim: tag byte, literal
/// length encoding, and value in one buffer, plus the bytes left over.
pub open spec fn spec_read_encoded_component(data: Seq<u8>, tag: u8) -> Result<
    (Seq<u8>, Seq<u8>),
    Error,
> {
    match spec_read_tlv(data, tag) {
        Ok((length_bytes, value, rest)) => Ok((seq![tag] + length_bytes + value, rest)),
        Err(e) => Err(e),
    }
}

/// A reader scoped to the content bytes of exactly one SEQUENCE; `self@` is
/// the part of those contents not yet consumed.
pub struct Sequence<'a> {
    contents: Der<'a>,
}

impl<'a> View for Sequence<'a> {
    type V = Seq<u8>;

    closed spec fn view(&self) -> Seq<u8> {
        self.contents@
    }
}

impl<'a> Sequence<'a> {
    /// Reads the one outer SEQUENCE of `input`, which must consume the
    /// entire input, and scopes a reader to its contents.
    pub fn new(input: &'a [u8]) -> (r: Result<Sequence<'a>, Error>)
        ensures
            match r {
                Ok(s) => spec_sequence_new(input@) matches Ok(contents) && s@ == contents,
                Err(e) => spec_sequence_new(input@) == Err::<Seq<u8>, Error>(e),
            },
    {
        let mut der = Der::new(input);
        match der.read_tlv(SEQUENCE | CONSTRUCTED) {
            Ok((_, _, sequence_bytes)) => {
                if !der.at_end() {
                    return Err(Error::ExtraInput);
                }
                Ok(Sequence { contents: Der::new(sequence_bytes) })
            },
            Err(e) => Err(e),
        }
    }

    /// Reads an INTEGER, rejecting empty contents and stripping a single
    /// superfluous leading zero byte.
    pub fn read_unsigned_integer(&mut self) -> (r: Result<&'a [u8], Error>)
        ensures
            match r {
                Ok(v) => spec_read_unsigned_integer(old(self)@) matches Ok((value, rest))
                    && v@ == value
                    && final(self)@ == rest,
                // The item is consumed before its contents are judged, so a
                // failed reader is left mid-way and is not reused.
                Err(e) => spec_read_unsigned_integer(old(self)@) == Err::<
                    (Seq<u8>, Seq<u8>),
                    Error,
                >(e),
            },
    {
        match self.contents.read_tlv(INTEGER) {
            Ok((_, _, bytes)) => {
                if bytes.len() == 0 {
                    return Err(Error::InvalidInput);
                }
                if bytes[0] == 0 && bytes.len() > 1 {
                    let integer = vstd::slice::slice_subrange(bytes, 1, bytes.len());
                    proof {
                        assert(integer@ =~= spec_strip_leading_zero(bytes@));
                    }
                    Ok(integer)
                } else {
                    Ok(bytes)
                }
            },
            Err(e) => Err(e),
        }
    }

    /// Reads an OCTET STRING and returns its contents.
    pub fn read_octet_string(&mut self) -> (r: Result<&'a [u8], Error>)
        ensures
            match r {
                Ok(v) => spec_read_tagged(old(self)@, OCTET_STRING) matches Ok((value, rest))
                    && v@ == value
                    && final(self)@ == rest,
                Err(e) => {
                    &&& spec_read_tagged(old(self)@, OCTET_STRING) == Err::<(Seq<u8>, Seq<u8>), Error>(e)
                    &&& final(self)@ == old(self)@
                },
            },
    {
        match self.contents.read_tlv(OCTET_STRING) {
            Ok((_, _, bytes)) => Ok(bytes),
            Err(e) => Err(e),
        }
    }

    /// Reads an OBJECT IDENTIFIER and returns its contents.
    pub fn read_oid(&mut self) -> (r: Result<&'a [u8], Error>)
        ensures
            match r {
                Ok(v) => spec_read_tagged(old(self)@, OBJECT_IDENTIFIER) matches Ok((value, rest))
                    && v@ == value
                    && final(self)@ == rest,
                Err(e) => {
                    &&& spec_read_tagged(old(self)@, OBJECT_IDENTIFIER) == Err::<
                        (Seq<u8>, Seq<u8>),
                        Error,
                    >(e)
                    &&& final(self)@ == old(self)@
                },
            },
    {
        match self.contents.read_tlv(OBJECT_IDENTIFIER) {
            Ok((_, _, bytes)) => Ok(bytes),
            Err(e) => Err(e),
        }
    }

    /// Reads a NULL, whose contents must be empty.
    pub fn read_null(&mut self) -> (r: Result<(), Error>)
        ensures
            match r {
                Ok(()) => spec_read_null(old(self)@) matches Ok(rest) && final(self)@ == rest,
                // The item is consumed before its contents are judged, so a
                // failed reader is left mid-way and is not reused.
                Err(e) => spec_read_null(old(self)@) == Err::<Seq<u8>, Error>(e),
            },
    {
        match self.contents.read_tlv(NULL) {
            Ok((_, _, bytes)) => {
                if bytes.len() == 0 {
                    Ok(())
                } else {
                    Err(Error::InvalidInput)
                }
            },
            Err(e) => Err(e),
        }
    }

    /// Reads a nested SEQUENCE and returns a reader scoped to its contents.
    pub fn read_sequence(&mut self) -> (r: Result<Sequence<'a>, Error>)
        ensures
            match r {
                Ok(s) => spec_read_tagged(old(self)@, SEQUENCE | CONSTRUCTED) matches Ok(
                    (value, rest),
                ) && s@ == value && final(self)@ == rest,
                Err(e) => {
                    &&& spec_read_tagged(old(self)@, SEQUENCE | CONSTRUCTED) == Err::<
                        (Seq<u8>, Seq<u8>),
                        Error,
                    >(e)
                    &&& final(self)@ == old(self)@
                },
            },
    {
        match self.contents.read_tlv(SEQUENCE | CONSTRUCTED) {
            Ok((_, _, sequence_bytes)) => Ok(Sequence { contents: Der::new(sequence_bytes) }),
            Err(e) => Err(e),
        }
    }

    /// Peeks for a context-specific constructed item with the given tag
    /// number; absent is `None` rather than a failure.
    pub fn read_optional_tagged_value(&mut self, tag: u8) -> (r: Result<Option<&'a [u8]>, Error>)
        ensures
            match r {
                Ok(opt) => match opt {
                    Some(v) => spec_read_optional_tagged_value(old(self)@, tag) matches Ok(
                        (Some(value), rest),
                    ) && v@ == value && final(self)@ == rest,
                    None => {
                        &&& spec_read_optional_tagged_value(old(self)@, tag) == Ok::<
                            (Option<Seq<u8>>, Seq<u8>),
                            Error,
                        >((None, old(self)@))
                        &&& final(self)@ == old(self)@
                    },
                },
                Err(e) => {
                    &&& spec_read_optional_tagged_value(old(self)@, tag) == Err::<
                        (Option<Seq<u8>>, Seq<u8>),
                        Error,
                    >(e)
                    &&& final(self)@ == old(self)@
                },
            },
    {
        let expected = CONTEXT_SPECIFIC | CONSTRUCTED | tag;
        if self.contents.peek(expected) {
            match self.contents.read_tlv(expected) {
                Ok((_, _, tagged_value_bytes)) => Ok(Some(tagged_value_bytes)),
                Err(e) => Err(e),
            }
        } else {
            Ok(None)
        }
    }

    /// Reads one TLV item and returns its exact original encoding — tag,
    /// length bytes and value — in one owned buffer.
    pub fn read_encoded_sequence_component(&mut self, tag: u8) -> (r: Result<Vec<u8>, Error>)
        ensures
            match r {
                Ok(buf) => spec_read_encoded_component(old(self)@, tag) matches Ok((encoded, rest))
                    && buf@ == encoded
                    && final(self)@ == rest,
                Err(e) => {
                    &&& spec_read_encoded_component(old(self)@, tag) == Err::<
                        (Seq<u8>, Seq<u8>),
                        Error,
                    >(e)
                    &&& final(self)@ == old(self)@
                },
            },
    {
        match self.contents.read_tlv(tag) {
            Ok((t, mut length_bytes, value)) => {
                let ghost length_bytes_snapshot = length_bytes@;
                let mut encoded: Vec<u8> = Vec::new();
                encoded.push(t);
                encoded.append(&mut length_bytes);
                let ghost prefix = encoded@;
                proof {
                    assert(prefix =~= seq![tag] + length_bytes_snapshot);
                }
                let mut i: usize = 0;
                while i < value.len()
                    invariant
                        i <= value@.len(),
                        encoded@ == prefix + value@.subrange(0, i as int),
                    decreases value@.len() - i,
                {
                    encoded.push(value[i]);
                    proof {
                        assert(prefix + value@.subrange(0, i as int) + seq![value@[i as int]]
                            =~= prefix + value@.subrange(0, i + 1));
                    }
                    i += 1;
                }
                proof {
                    assert(value@.subrange(0, value@.len() as int) =~= value@);
                }
                Ok(encoded)
            },
            Err(e) => Err(e),
        }
    }

    /// True iff the reader has consumed all of the sequence's contents.
    pub fn at_end(&self) -> (r: bool)
        ensures
            r <==> self@.len() == 0,
    {
        self.contents.at_end()
    }

    /// Takes all remaining content bytes, leaving the reader at the end.
    pub fn read_rest(&mut self) -> (r: &'a [u8])
        ensures
            r@ == old(self)@,
            final(self)@ == Seq::<u8>::empty(),
    {
        self.contents.read_rest()
    }
}

/// A buffer whose outer SEQUENCE item is itself well-formed but which holds
/// trailing bytes after it is rejected as a top-level sequence.
pub proof fn lemma_trailing_bytes_rejected(
    input: Seq<u8>,
    length_bytes: Seq<u8>,
    value: Seq<u8>,
    rest: Seq<u8>,
)
    requires
        spec_read_tlv(input, SEQUENCE | CONSTRUCTED) == Ok::<(Seq<u8>, Seq<u8>, Seq<u8>), Error>(
            (length_bytes, value, rest),
        ),
        rest.len() > 0,
    ensures
        spec_sequence_new(input) == Err::<Seq<u8>, Error>(Error::ExtraInput),
{
}

/// The canonical DER encoding of a length, for lengths up to 65535.
pub open spec fn spec_length_encode(length: nat) -> Seq<u8> {
    if length < 0x80 {
        seq![length as u8]
    } else if length < 0x100 {
        seq![0x81u8, length as u8]
    } else {
        seq![0x82u8, (length / 256) as u8, (length % 256) as u8]
    }
}

/// The canonical DER encoding of one TLV item: its tag, the canonical
/// encoding of its value's length, and the value.
pub open spec fn spec_encode_tlv(tag: u8, value: Seq<u8>) -> Seq<u8> {
    seq![tag] + spec_length_encode(value.len()) + value
}

/// Reading a TLV item from its canonical encoding, with anything appended
/// after it, gives back exactly the encoded value and the appended bytes.
pub proof fn lemma_read_encoded_tlv(tag: u8, value: Seq<u8>, rest: Seq<u8>)
    requires
        value.len() <= 0xffff,
    ensures
        spec_read_tlv(spec_encode_tlv(tag, value) + rest, tag) == Ok::<
            (Seq<u8>, Seq<u8>, Seq<u8>),
            Error,
        >((spec_length_encode(value.len()), value, rest)),
{
    let data = spec_encode_tlv(tag, value) + rest;
    let len = value.len();
    let lb = spec_length_encode(len);
    assert(data =~= seq![tag] + lb + value + rest);
    if len < 0x80 {
        assert(data[0] == tag);
        assert(data[1] == len as u8);
        assert((len as u8) < 0x80);
        assert(data.len() == 2 + len + rest.len());
        assert(data.subrange(2, 2 + len as int) =~= value);
        assert(data.subrange(2 + len as int, data.len() as int) =~= rest);
    } else if len < 0x100 {
        assert(data[0] == tag);
        assert(data[1] == 0x81);
        assert(data[2] == len as u8);
        assert((len as u8) >= 0x80);
        assert(data.len() == 3 + len + rest.len());
        assert(data.subrange(3, 3 + len as int) =~= value);
        assert(data.subrange(3 + len as int, data.len() as int) =~= rest);
    } else {
        assert(data[0] == tag);
        assert(data[1] == 0x82);
        assert(data[2] == (len / 256) as u8);
        assert(data[3] == (len % 256) as u8);
        assert(len / 256 < 256 && len % 256 < 256);
        assert(((len / 256) as u8) as nat * 256 + ((len % 256) as u8) as nat == len) by {
            assert(len == 256 * (len / 256) + len % 256) by {
                vstd::arithmetic::div_mod::lemma_fundamental_div_mod(len as int, 256);
            }
        }
        assert(data.len() == 4 + len + rest.len());
        assert(data.subrange(4, 4 + len as int) =~= value);
        assert(data.subrange(4 + len as int, data.len() as int) =~= rest);
    }
}

/// Round trip: encode a SEQUENCE holding two INTEGERs and read it back.
/// Constructing the top-level reader succeeds and yields the two encoded
/// integers; reading them in turn yields each integer's content bytes, less
/// any superfluous leading zero, and leaves the reader at the end.
pub proof fn lemma_integer_sequence_round_trip(a: Seq<u8>, b: Seq<u8>)
    requires
        a.len() > 0,
        b.len() > 0,
        spec_encode_tlv(INTEGER, a).len() + spec_encode_tlv(INTEGER, b).len() <= 0xffff,
    ensures
        ({
            let body = spec_encode_tlv(INTEGER, a) + spec_encode_tlv(INTEGER, b);
            let input = spec_encode_tlv(SEQUENCE | CONSTRUCTED, body);
            &&& spec_sequence_new(input) == Ok::<Seq<u8>, Error>(body)
            &&& spec_read_unsigned_integer(body) == Ok::<(Seq<u8>, Seq<u8>), Error>(
                (spec_strip_leading_zero(a), spec_encode_tlv(INTEGER, b)),
            )
            &&& spec_read_unsigned_integer(spec_encode_tlv(INTEGER, b)) == Ok::<
                (Seq<u8>, Seq<u8>),
                Error,
            >((spec_strip_leading_zero(b), Seq::<u8>::empty()))
        }),
{
    let body = spec_encode_tlv(INTEGER, a) + spec_encode_tlv(INTEGER, b);
    let input = spec_encode_tlv(SEQUENCE | CONSTRUCTED, body);
    assert(a.len() <= spec_encode_tlv(INTEGER, a).len());
    assert(b.len() <= spec_encode_tlv(INTEGER, b).len());
    assert(input =~= spec_encode_tlv(SEQUENCE | CONSTRUCTED, body) + Seq::<u8>::empty());
    lemma_read_encoded_tlv(SEQUENCE | CONSTRUCTED, body, Seq::<u8>::empty());
    lemma_read_encoded_tlv(INTEGER, a, spec_encode_tlv(INTEGER, b));
    assert(spec_encode_tlv(INTEGER, b) =~= spec_encode_tlv(INTEGER, b) + Seq::<u8>::empty());
    lemma_read_encoded_tlv(INTEGER, b, Seq::<u8>::empty());
}

} // verus!
