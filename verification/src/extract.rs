//! Pure extractors that pull specific fields out of DER-encoded RSA public
//! keys, X.509 certificates, DigestInfo values, SubjectPublicKeyInfo
//! values, and ECDSA signatures.

use vstd::prelude::*;
use vstd::slice::slice_to_vec;

use crate::der::{CONSTRUCTED, INTEGER, OBJECT_IDENTIFIER, OCTET_STRING, SEQUENCE};
use crate::error::Error;
use crate::sequence::{
    Sequence, spec_read_encoded_component, spec_read_null, spec_read_optional_tagged_value,
    spec_read_tagged, spec_read_unsigned_integer, spec_sequence_new,
};

verus! {

/// What extracting the modulus from `RSAPublicKey ::= SEQUENCE { modulus
/// INTEGER, publicExponent INTEGER }` yields: the modulus bytes, after
/// checking that the exponent is present and the whole input is consumed.
pub open spec fn spec_read_rsa_modulus(public_key: Seq<u8>) -> Result<Seq<u8>, Error> {
    match spec_sequence_new(public_key) {
        Ok(contents) => match spec_read_unsigned_integer(contents) {
            Ok((modulus, rest1)) => match spec_read_unsigned_integer(rest1) {
                Ok((exponent, rest2)) => {
                    if rest2.len() == 0 {
                        Ok(modulus)
                    } else {
                        Err(Error::ExtraInput)
                    }
                },
                Err(e) => Err(e),
            },
            Err(e) => Err(e),
        },
        Err(e) => Err(e),
    }
}

/// Given a slice of DER bytes representing an RSA public key, extracts the
/// bytes of the modulus as an unsigned integer.  Also verifies that the
/// public exponent is present, and that reading these values consumes the
/// entirety of the slice.
pub fn read_rsa_modulus(public_key: &[u8]) -> (r: Result<Vec<u8>, Error>)
    ensures
        match r {
            Ok(modulus) => spec_read_rsa_modulus(public_key@) matches Ok(v) && modulus@ == v,
            Err(e) => spec_read_rsa_modulus(public_key@) == Err::<Seq<u8>, Error>(e),
        },
{
    let mut sequence = match Sequence::new(public_key) {
        Ok(s) => s,
        Err(e) => return Err(e),
    };
    let modulus_value = match sequence.read_unsigned_integer() {
        Ok(v) => v,
        Err(e) => return Err(e),
    };
    let _exponent = match sequence.read_unsigned_integer() {
        Ok(v) => v,
        Err(e) => return Err(e),
    };
    if !sequence.at_end() {
        return Err(Error::ExtraInput);
    }
    Ok(slice_to_vec(modulus_value))
}

/// What extracting the algorithm parameters from a SubjectPublicKeyInfo
/// yields: everything after the OID inside the inner AlgorithmIdentifier
/// sequence, verbatim.  Neither sequence needs to be fully consumed.
pub open spec fn spec_read_spki_algorithm_parameters(spki: Seq<u8>) -> Result<Seq<u8>, Error> {
    match spec_sequence_new(spki) {
        Ok(public_key_info) => match spec_read_tagged(public_key_info, SEQUENCE | CONSTRUCTED) {
            Ok((algorithm_identifier, _rest)) => match spec_read_tagged(
                algorithm_identifier,
                OBJECT_IDENTIFIER,
            ) {
                Ok((_algorithm, parameters)) => Ok(parameters),
                Err(e) => Err(e),
            },
            Err(e) => Err(e),
        },
        Err(e) => Err(e),
    }
}

/// Given a slice of DER bytes representing a SubjectPublicKeyInfo, extracts
/// the bytes of the parameters of the algorithm.  Does not verify that all
/// input is consumed.
pub fn read_spki_algorithm_parameters(spki: &[u8]) -> (r: Result<Vec<u8>, Error>)
    ensures
        match r {
            Ok(parameters) => spec_read_spki_algorithm_parameters(spki@) matches Ok(v)
                && parameters@ == v,
            Err(e) => spec_read_spki_algorithm_parameters(spki@) == Err::<Seq<u8>, Error>(e),
        },
{
    let mut public_key_info = match Sequence::new(spki) {
        Ok(s) => s,
        Err(e) => return Err(e),
    };
    let mut algorithm_identifier = match public_key_info.read_sequence() {
        Ok(s) => s,
        Err(e) => return Err(e),
    };
    let _algorithm = match algorithm_identifier.read_oid() {
        Ok(v) => v,
        Err(e) => return Err(e),
    };
    Ok(slice_to_vec(algorithm_identifier.read_rest()))
}

/// What extracting from `DigestInfo ::= SEQUENCE { SEQUENCE { OID, NULL },
/// OCTET STRING }` yields: the hash algorithm's OID bytes and the digest
/// bytes, with every level fully consumed.
pub open spec fn spec_read_digest_info(digest_info: Seq<u8>) -> Result<(Seq<u8>, Seq<u8>), Error> {
    match spec_sequence_new(digest_info) {
        Ok(contents) => match spec_read_tagged(contents, SEQUENCE | CONSTRUCTED) {
            Ok((algorithm, after_algorithm)) => match spec_read_tagged(
                algorithm,
                OBJECT_IDENTIFIER,
            ) {
                Ok((oid, after_oid)) => match spec_read_null(after_oid) {
                    Ok(after_null) => {
                        if after_null.len() != 0 {
                            Err(Error::ExtraInput)
                        } else {
                            match spec_read_tagged(after_algorithm, OCTET_STRING) {
                                Ok((digest, after_digest)) => {
                                    if after_digest.len() == 0 {
                                        Ok((oid, digest))
                                    } else {
                                        Err(Error::ExtraInput)
                                    }
                                },
                                Err(e) => Err(e),
                            }
                        }
                    },
                    Err(e) => Err(e),
                },
                Err(e) => Err(e),
            },
            Err(e) => Err(e),
        },
        Err(e) => Err(e),
    }
}

/// Given a slice of DER bytes representing a DigestInfo, extracts the bytes
/// of the OID of the hash algorithm and the digest.
pub fn read_digest_info(digest_info: &[u8]) -> (r: Result<(&[u8], &[u8]), Error>)
    ensures
        match r {
            Ok((oid, digest)) => spec_read_digest_info(digest_info@) matches Ok((o, d))
                && oid@ == o
                && digest@ == d,
            Err(e) => spec_read_digest_info(digest_info@) == Err::<(Seq<u8>, Seq<u8>), Error>(e),
        },
{
    let mut sequence = match Sequence::new(digest_info) {
        Ok(s) => s,
        Err(e) => return Err(e),
    };
    let mut algorithm = match sequence.read_sequence() {
        Ok(s) => s,
        Err(e) => return Err(e),
    };
    let oid = match algorithm.read_oid() {
        Ok(v) => v,
        Err(e) => return Err(e),
    };
    match algorithm.read_null() {
        Ok(()) => (),
        Err(e) => return Err(e),
    };
    if !algorithm.at_end() {
        return Err(Error::ExtraInput);
    }
    let digest = match sequence.read_octet_string() {
        Ok(v) => v,
        Err(e) => return Err(e),
    };
    if !sequence.at_end() {
        return Err(Error::ExtraInput);
    }
    Ok((oid, digest))
}

/// What extracting `Ecdsa-Sig-Value ::= SEQUENCE { r INTEGER, s INTEGER }`
/// yields: the contents of `r` and `s` as unsigned integers, with the
/// whole input consumed.
pub open spec fn spec_read_ec_sig_point(signature: Seq<u8>) -> Result<(Seq<u8>, Seq<u8>), Error> {
    match spec_sequence_new(signature) {
        Ok(contents) => match spec_read_unsigned_integer(contents) {
            Ok((r, rest1)) => match spec_read_unsigned_integer(rest1) {
                Ok((s, rest2)) => {
                    if rest2.len() == 0 {
                        Ok((r, s))
                    } else {
                        Err(Error::ExtraInput)
                    }
                },
                Err(e) => Err(e),
            },
            Err(e) => Err(e),
        },
        Err(e) => Err(e),
    }
}

/// Given a slice of DER bytes representing an ECDSA signature, extracts the
/// bytes of `r` and `s` as unsigned integers.  Also verifies that this
/// consumes the entirety of the slice.
pub fn read_ec_sig_point(signature: &[u8]) -> (result: Result<(&[u8], &[u8]), Error>)
    ensures
        match result {
            Ok((r, s)) => spec_read_ec_sig_point(signature@) matches Ok((rv, sv))
                && r@ == rv
                && s@ == sv,
            Err(e) => spec_read_ec_sig_point(signature@) == Err::<(Seq<u8>, Seq<u8>), Error>(e),
        },
{
    let mut sequence = match Sequence::new(signature) {
        Ok(s) => s,
        Err(e) => return Err(e),
    };
    let r = match sequence.read_unsigned_integer() {
        Ok(v) => v,
        Err(e) => return Err(e),
    };
    let s = match sequence.read_unsigned_integer() {
        Ok(v) => v,
        Err(e) => return Err(e),
    };
    if !sequence.at_end() {
        return Err(Error::ExtraInput);
    }
    Ok((r, s))
}

/// `value` left-padded with zero bytes to `width` bytes.
pub open spec fn spec_zero_pad(value: Seq<u8>, width: nat) -> Seq<u8>
    recommends
        value.len() <= width,
{
    Seq::new((width - value.len()) as nat, |i: int| 0u8) + value
}

/// What converting a DER ECDSA signature to its raw form yields: `r` and
/// `s`, each zero-left-padded to the coordinate width, concatenated; a
/// component longer than the coordinate width cannot be represented.
pub open spec fn spec_der_ec_sig_to_raw(encoded: Seq<u8>, coordinate_width: nat) -> Result<
    Seq<u8>,
    Error,
> {
    match spec_read_ec_sig_point(encoded) {
        Ok((r, s)) => {
            if r.len() > coordinate_width || s.len() > coordinate_width {
                Err(Error::InvalidInput)
            } else {
                Ok(spec_zero_pad(r, coordinate_width) + spec_zero_pad(s, coordinate_width))
            }
        },
        Err(e) => Err(e),
    }
}

/// Converts a slice of DER bytes representing an ECDSA signature to the
/// concatenation of the bytes of `r` and `s`, each zero-left-padded to
/// `coordinate_width`.  Also verifies that this consumes the entirety of
/// the slice.
pub fn der_ec_sig_to_raw(encoded: &[u8], coordinate_width: usize) -> (result: Result<
    Vec<u8>,
    Error,
>)
    requires
        coordinate_width <= usize::MAX / 2,
    ensures
        match result {
            Ok(raw) => {
                &&& spec_der_ec_sig_to_raw(encoded@, coordinate_width as nat) matches Ok(v)
                    && raw@ == v
                &&& raw@.len() == 2 * coordinate_width
            },
            Err(e) => spec_der_ec_sig_to_raw(encoded@, coordinate_width as nat) == Err::<
                Seq<u8>,
                Error,
            >(e),
        },
{
    let (r, s) = match read_ec_sig_point(encoded) {
        Ok(p) => p,
        Err(e) => return Err(e),
    };
    if r.len() > coordinate_width || s.len() > coordinate_width {
        return Err(Error::InvalidInput);
    }
    let mut raw_signature: Vec<u8> = Vec::new();
    let r_pad = coordinate_width - r.len();
    let mut i: usize = 0;
    while i < r_pad
        invariant
            i <= r_pad,
            raw_signature@ == Seq::new(i as nat, |j: int| 0u8),
        decreases r_pad - i,
    {
        raw_signature.push(0);
        proof {
            assert(Seq::new(i as nat, |j: int| 0u8).push(0u8)
                =~= Seq::new((i + 1) as nat, |j: int| 0u8));
        }
        i += 1;
    }
    let mut i: usize = 0;
    while i < r.len()
        invariant
            i <= r@.len(),
            r_pad == coordinate_width - r@.len(),
            raw_signature@ == Seq::new(r_pad as nat, |j: int| 0u8) + r@.subrange(0, i as int),
        decreases r@.len() - i,
    {
        raw_signature.push(r[i]);
        proof {
            assert((Seq::new(r_pad as nat, |j: int| 0u8) + r@.subrange(0, i as int)).push(
                r@[i as int],
            ) =~= Seq::new(r_pad as nat, |j: int| 0u8) + r@.subrange(0, i + 1));
        }
        i += 1;
    }
    proof {
        assert(r@.subrange(0, r@.len() as int) =~= r@);
        assert(raw_signature@ == spec_zero_pad(r@, coordinate_width as nat));
    }
    let ghost first_half = raw_signature@;
    let s_pad = coordinate_width - s.len();
    let mut i: usize = 0;
    while i < s_pad
        invariant
            i <= s_pad,
            raw_signature@ == first_half + Seq::new(i as nat, |j: int| 0u8),
        decreases s_pad - i,
    {
        raw_signature.push(0);
        proof {
            assert((first_half + Seq::new(i as nat, |j: int| 0u8)).push(0u8)
                =~= first_half + Seq::new((i + 1) as nat, |j: int| 0u8));
        }
        i += 1;
    }
    let mut i: usize = 0;
    while i < s.len()
        invariant
            i <= s@.len(),
            s_pad == coordinate_width - s@.len(),
            raw_signature@ == first_half + Seq::new(s_pad as nat, |j: int| 0u8)
                + s@.subrange(0, i as int),
        decreases s@.len() - i,
    {
        raw_signature.push(s[i]);
        proof {
            assert((first_half + Seq::new(s_pad as nat, |j: int| 0u8) + s@.subrange(0, i as int))
                .push(s@[i as int]) =~= first_half + Seq::new(s_pad as nat, |j: int| 0u8)
                + s@.subrange(0, i + 1));
        }
        i += 1;
    }
    proof {
        assert(s@.subrange(0, s@.len() as int) =~= s@);
        assert(raw_signature@ =~= spec_zero_pad(r@, coordinate_width as nat)
            + spec_zero_pad(s@, coordinate_width as nat));
    }
    Ok(raw_signature)
}

/// Re-deriving the signature point from the raw form: when both integers
/// fit the coordinate width, the conversion succeeds and the two halves of
/// its output are exactly `r` and `s`, each left-padded with zeros to the
/// width.
pub proof fn lemma_raw_signature_recovers_point(
    encoded: Seq<u8>,
    r: Seq<u8>,
    s: Seq<u8>,
    width: nat,
)
    requires
        spec_read_ec_sig_point(encoded) == Ok::<(Seq<u8>, Seq<u8>), Error>((r, s)),
        r.len() <= width,
        s.len() <= width,
    ensures
        spec_der_ec_sig_to_raw(encoded, width) matches Ok(raw)
            && raw.len() == 2 * width
            && raw.subrange(0, width as int) == spec_zero_pad(r, width)
            && raw.subrange(width as int, 2 * width as int) == spec_zero_pad(s, width),
{
    let raw = spec_zero_pad(r, width) + spec_zero_pad(s, width);
    assert(spec_zero_pad(r, width).len() == width);
    assert(spec_zero_pad(s, width).len() == width);
    assert(raw.subrange(0, width as int) =~= spec_zero_pad(r, width));
    assert(raw.subrange(width as int, 2 * width as int) =~= spec_zero_pad(s, width));
}

/// What extracting the identifiers of an X.509 certificate yields: the
/// exact encodings (tag, length and value) of the serial number, the
/// issuer Name, and the subject Name, found by descending into
/// TBSCertificate, skipping the optional explicit version tag, the
/// signature AlgorithmIdentifier and the Validity.  Fields after the
/// subject are deliberately left unread.
pub open spec fn spec_read_encoded_certificate_identifiers(certificate: Seq<u8>) -> Result<
    (Seq<u8>, Seq<u8>, Seq<u8>),
    Error,
> {
    match spec_sequence_new(certificate) {
        Ok(cert) => match spec_read_tagged(cert, SEQUENCE | CONSTRUCTED) {
            Ok((tbs, _after_tbs)) => match spec_read_optional_tagged_value(tbs, 0) {
                Ok((_version, after_version)) => match spec_read_encoded_component(
                    after_version,
                    INTEGER,
                ) {
                    Ok((serial_number, after_serial)) => match spec_read_tagged(
                        after_serial,
                        SEQUENCE | CONSTRUCTED,
                    ) {
                        Ok((_signature, after_signature)) => match spec_read_encoded_component(
                            after_signature,
                            SEQUENCE | CONSTRUCTED,
                        ) {
                            Ok((issuer, after_issuer)) => match spec_read_tagged(
                                after_issuer,
                                SEQUENCE | CONSTRUCTED,
                            ) {
                                Ok((_validity, after_validity)) => match spec_read_encoded_component(
                                    after_validity,
                                    SEQUENCE | CONSTRUCTED,
                                ) {
                                    Ok((subject, _after_subject)) => Ok(
                                        (serial_number, issuer, subject),
                                    ),
                                    Err(e) => Err(e),
                                },
                                Err(e) => Err(e),
                            },
                            Err(e) => Err(e),
                        },
                        Err(e) => Err(e),
                    },
                    Err(e) => Err(e),
                },
                Err(e) => Err(e),
            },
            Err(e) => Err(e),
        },
        Err(e) => Err(e),
    }
}

/// Given a slice of DER bytes representing an X.509 certificate, extracts
/// the encoded serial number, issuer, and subject.  Does not verify that
/// the remainder of the certificate is in any way well-formed.
pub fn read_encoded_certificate_identifiers(certificate: &[u8]) -> (r: Result<
    (Vec<u8>, Vec<u8>, Vec<u8>),
    Error,
>)
    ensures
        match r {
            Ok((serial_number, issuer, subject)) => spec_read_encoded_certificate_identifiers(
                certificate@,
            ) matches Ok((sn, iss, sub))
                && serial_number@ == sn
                && issuer@ == iss
                && subject@ == sub,
            Err(e) => spec_read_encoded_certificate_identifiers(certificate@) == Err::<
                (Seq<u8>, Seq<u8>, Seq<u8>),
                Error,
            >(e),
        },
{
    let mut certificate_sequence = match Sequence::new(certificate) {
        Ok(s) => s,
        Err(e) => return Err(e),
    };
    let mut tbs_certificate_sequence = match certificate_sequence.read_sequence() {
        Ok(s) => s,
        Err(e) => return Err(e),
    };
    let _version = match tbs_certificate_sequence.read_optional_tagged_value(0) {
        Ok(v) => v,
        Err(e) => return Err(e),
    };
    let serial_number = match tbs_certificate_sequence.read_encoded_sequence_component(INTEGER) {
        Ok(v) => v,
        Err(e) => return Err(e),
    };
    let _signature = match tbs_certificate_sequence.read_sequence() {
        Ok(s) => s,
        Err(e) => return Err(e),
    };
    let issuer = match tbs_certificate_sequence.read_encoded_sequence_component(
        SEQUENCE | CONSTRUCTED,
    ) {
        Ok(v) => v,
        Err(e) => return Err(e),
    };
    let _validity = match tbs_certificate_sequence.read_sequence() {
        Ok(s) => s,
        Err(e) => return Err(e),
    };
    let subject = match tbs_certificate_sequence.read_encoded_sequence_component(
        SEQUENCE | CONSTRUCTED,
    ) {
        Ok(v) => v,
        Err(e) => return Err(e),
    };
    Ok((serial_number, issuer, subject))
}

} // verus!
