use rsclientcerts::der::{CONSTRUCTED, SEQUENCE};
use rsclientcerts::extract::{
    der_ec_sig_to_raw, read_digest_info, read_ec_sig_point, read_encoded_certificate_identifiers,
    read_rsa_modulus, read_spki_algorithm_parameters,
};
use rsclientcerts::Error;

#[test]
fn empty_input_fails() {
    let empty = Vec::new();
    assert!(read_rsa_modulus(&empty).is_err());
    assert!(read_ec_sig_point(&empty).is_err());
    assert!(read_encoded_certificate_identifiers(&empty).is_err());
}

#[test]
fn empty_sequence_fails() {
    let empty = vec![SEQUENCE | CONSTRUCTED];
    assert!(read_rsa_modulus(&empty).is_err());
    assert!(read_ec_sig_point(&empty).is_err());
    assert!(read_encoded_certificate_identifiers(&empty).is_err());
}

#[test]
fn test_der_ec_sig_to_raw() {
    let ec_sig_point = vec![
        0x30, 0x45, 0x02, 0x20, 0x5c, 0x75, 0x51, 0x9f, 0x13, 0x11, 0x50, 0xcd, 0x5d, 0x8a,
        0xde, 0x20, 0xa3, 0xbc, 0x06, 0x30, 0x91, 0xff, 0xb2, 0x73, 0x75, 0x5f, 0x31, 0x64,
        0xec, 0xfd, 0xcb, 0x42, 0x80, 0x0a, 0x70, 0xe6, 0x02, 0x21, 0x00, 0x85, 0xfb, 0xb4,
        0x75, 0x5d, 0xb5, 0x1c, 0x5f, 0x97, 0x52, 0x27, 0xd9, 0x71, 0x14, 0xc0, 0xbc, 0x67,
        0x10, 0x4f, 0x72, 0x2e, 0x37, 0xb2, 0x78, 0x54, 0xfd, 0xd0, 0x9d, 0x51, 0xd4, 0x9f,
        0xf2,
    ];
    let result = der_ec_sig_to_raw(&ec_sig_point, 32);
    assert!(result.is_ok());
    let expected = vec![
        0x5c, 0x75, 0x51, 0x9f, 0x13, 0x11, 0x50, 0xcd, 0x5d, 0x8a, 0xde, 0x20, 0xa3, 0xbc,
        0x06, 0x30, 0x91, 0xff, 0xb2, 0x73, 0x75, 0x5f, 0x31, 0x64, 0xec, 0xfd, 0xcb, 0x42,
        0x80, 0x0a, 0x70, 0xe6, 0x85, 0xfb, 0xb4, 0x75, 0x5d, 0xb5, 0x1c, 0x5f, 0x97, 0x52,
        0x27, 0xd9, 0x71, 0x14, 0xc0, 0xbc, 0x67, 0x10, 0x4f, 0x72, 0x2e, 0x37, 0xb2, 0x78,
        0x54, 0xfd, 0xd0, 0x9d, 0x51, 0xd4, 0x9f, 0xf2,
    ];
    assert_eq!(result.unwrap(), expected);
}

#[test]
fn test_der_ec_sig_to_raw_long() {
    let ec_sig = vec![
        0x30, 0x45, 0x02, 0x20, 0x5c, 0x75, 0x51, 0x9f, 0x13, 0x11, 0x50, 0xcd, 0x5d, 0x8a,
        0xde, 0x20, 0xa3, 0xbc, 0x06, 0x30, 0x91, 0xff, 0xb2, 0x73, 0x75, 0x5f, 0x31, 0x64,
        0xec, 0xfd, 0xcb, 0x42, 0x80, 0x0a, 0x70, 0xe6, 0x02, 0x21, 0x00, 0x85, 0xfb, 0xb4,
        0x75, 0x5d, 0xb5, 0x1c, 0x5f, 0x97, 0x52, 0x27, 0xd9, 0x71, 0x14, 0xc0, 0xbc, 0x67,
        0x10, 0x4f, 0x72, 0x2e, 0x37, 0xb2, 0x78, 0x54, 0xfd, 0xd0, 0x9d, 0x51, 0xd4, 0x9f,
        0xf2,
    ];
    let result = der_ec_sig_to_raw(&ec_sig, 16);
    assert!(result.is_err());
}

#[test]
fn test_der_ec_sig_to_raw_short() {
    let ec_sig_point = vec![
        0x30, 0x45, 0x02, 0x20, 0x5c, 0x75, 0x51, 0x9f, 0x13, 0x11, 0x50, 0xcd, 0x5d, 0x8a,
        0xde, 0x20, 0xa3, 0xbc, 0x06, 0x30, 0x91, 0xff, 0xb2, 0x73, 0x75, 0x5f, 0x31, 0x64,
        0xec, 0xfd, 0xcb, 0x42, 0x80, 0x0a, 0x70, 0xe6, 0x02, 0x21, 0x00, 0x85, 0xfb, 0xb4,
        0x75, 0x5d, 0xb5, 0x1c, 0x5f, 0x97, 0x52, 0x27, 0xd9, 0x71, 0x14, 0xc0, 0xbc, 0x67,
        0x10, 0x4f, 0x72, 0x2e, 0x37, 0xb2, 0x78, 0x54, 0xfd, 0xd0, 0x9d, 0x51, 0xd4, 0x9f,
        0xf2,
    ];
    let result = der_ec_sig_to_raw(&ec_sig_point, 48);
    assert!(result.is_ok());
    let expected = vec![
        0x00, 0x00, 0x00, 0x00, 0x00, 0x00, 0x00, 0x00, 0x00, 0x00, 0x00, 0x00, 0x00, 0x00,
        0x00, 0x00, 0x5c, 0x75, 0x51, 0x9f, 0x13, 0x11, 0x50, 0xcd, 0x5d, 0x8a, 0xde, 0x20,
        0xa3, 0xbc, 0x06, 0x30, 0x91, 0xff, 0xb2, 0x73, 0x75, 0x5f, 0x31, 0x64, 0xec, 0xfd,
        0xcb, 0x42, 0x80, 0x0a, 0x70, 0xe6, 0x00, 0x00, 0x00, 0x00, 0x00, 0x00, 0x00, 0x00,
        0x00, 0x00, 0x00, 0x00, 0x00, 0x00, 0x00, 0x00, 0x85, 0xfb, 0xb4, 0x75, 0x5d, 0xb5,
        0x1c, 0x5f, 0x97, 0x52, 0x27, 0xd9, 0x71, 0x14, 0xc0, 0xbc, 0x67, 0x10, 0x4f, 0x72,
        0x2e, 0x37, 0xb2, 0x78, 0x54, 0xfd, 0xd0, 0x9d, 0x51, 0xd4, 0x9f, 0xf2,
    ];
    assert_eq!(result.unwrap(), expected);
}

#[test]
fn test_read_rsa_modulus() {
    // SEQUENCE { INTEGER 0x00aabbcc, INTEGER 65537 }: the modulus comes
    // back with its superfluous leading zero byte stripped.
    let rsa_key = [
        0x30, 0x0b, 0x02, 0x04, 0x00, 0xaa, 0xbb, 0xcc, 0x02, 0x03, 0x01, 0x00, 0x01,
    ];
    let result = read_rsa_modulus(&rsa_key);
    assert!(result.is_ok());
    let modulus = result.unwrap();
    assert_eq!(modulus, vec![0xaa, 0xbb, 0xcc]);
}

#[test]
fn test_read_rsa_modulus_rejects_trailing_bytes() {
    let rsa_key = [
        0x30, 0x0b, 0x02, 0x04, 0x00, 0xaa, 0xbb, 0xcc, 0x02, 0x03, 0x01, 0x00, 0x01, 0xee,
    ];
    assert_eq!(read_rsa_modulus(&rsa_key), Err(Error::ExtraInput));
}

#[test]
fn test_read_rsa_modulus_rejects_extra_integer() {
    // A third INTEGER inside the sequence leaves the reader short of the end.
    let rsa_key = [
        0x30, 0x0e, 0x02, 0x04, 0x00, 0xaa, 0xbb, 0xcc, 0x02, 0x03, 0x01, 0x00, 0x01, 0x02,
        0x01, 0x05,
    ];
    assert_eq!(read_rsa_modulus(&rsa_key), Err(Error::ExtraInput));
}

#[test]
fn test_read_rsa_modulus_rejects_empty_integer() {
    let rsa_key = [0x30, 0x07, 0x02, 0x00, 0x02, 0x03, 0x01, 0x00, 0x01];
    assert_eq!(read_rsa_modulus(&rsa_key), Err(Error::InvalidInput));
}

#[test]
fn test_read_certificate_identifiers() {
    let certificate = [
        0x30, 0x51, 0x30, 0x4f, 0xa0, 0x03, 0x02, 0x01, 0x02, 0x02, 0x14, 0x3f,
        0xed, 0x7b, 0x43, 0x47, 0x8a, 0x53, 0x42, 0x5b, 0x0d, 0x50, 0xe1, 0x37,
        0x88, 0x2a, 0x20, 0x3f, 0x31, 0x17, 0x20, 0x30, 0x00, 0x30, 0x12, 0x31,
        0x10, 0x30, 0x0e, 0x06, 0x03, 0x55, 0x04, 0x03, 0x0c, 0x07, 0x54, 0x65,
        0x73, 0x74, 0x20, 0x43, 0x41, 0x30, 0x00, 0x30, 0x1a, 0x31, 0x18, 0x30,
        0x16, 0x06, 0x03, 0x55, 0x04, 0x03, 0x0c, 0x0f, 0x54, 0x65, 0x73, 0x74,
        0x20, 0x45, 0x6e, 0x64, 0x2d, 0x65, 0x6e, 0x74, 0x69, 0x74, 0x79,
    ];
    let result = read_encoded_certificate_identifiers(&certificate);
    assert!(result.is_ok());
    let (serial_number, issuer, subject) = result.unwrap();
    assert_eq!(
        serial_number,
        &[
            0x02, 0x14, 0x3f, 0xed, 0x7b, 0x43, 0x47, 0x8a, 0x53, 0x42, 0x5b, 0x0d, 0x50, 0xe1,
            0x37, 0x88, 0x2a, 0x20, 0x3f, 0x31, 0x17, 0x20
        ]
    );
    assert_eq!(
        issuer,
        &[
            0x30, 0x12, 0x31, 0x10, 0x30, 0x0e, 0x06, 0x03, 0x55, 0x04, 0x03, 0x0c, 0x07, 0x54,
            0x65, 0x73, 0x74, 0x20, 0x43, 0x41
        ]
    );
    assert_eq!(
        subject,
        &[
            0x30, 0x1a, 0x31, 0x18, 0x30, 0x16, 0x06, 0x03, 0x55, 0x04, 0x03, 0x0c, 0x0f, 0x54,
            0x65, 0x73, 0x74, 0x20, 0x45, 0x6e, 0x64, 0x2d, 0x65, 0x6e, 0x74, 0x69, 0x74, 0x79
        ]
    );
}

#[test]
fn test_read_v1_certificate_identifiers() {
    let certificate = [
        0x30, 0x44, 0x30, 0x42, 0x02, 0x14, 0x51, 0x6b, 0x24, 0xaa, 0xf2, 0x7f,
        0x56, 0x13, 0x5f, 0xc3, 0x8b, 0x5c, 0xa7, 0x00, 0x83, 0xa8, 0xee, 0xca,
        0xad, 0xa0, 0x30, 0x00, 0x30, 0x12, 0x31, 0x10, 0x30, 0x0e, 0x06, 0x03,
        0x55, 0x04, 0x03, 0x0c, 0x07, 0x54, 0x65, 0x73, 0x74, 0x20, 0x43, 0x41,
        0x30, 0x00, 0x30, 0x12, 0x31, 0x10, 0x30, 0x0e, 0x06, 0x03, 0x55, 0x04,
        0x03, 0x0c, 0x07, 0x56, 0x31, 0x20, 0x43, 0x65, 0x72, 0x74,
    ];
    let result = read_encoded_certificate_identifiers(&certificate);
    assert!(result.is_ok());
    let (serial_number, issuer, subject) = result.unwrap();
    assert_eq!(
        serial_number,
        &[
            0x02, 0x14, 0x51, 0x6b, 0x24, 0xaa, 0xf2, 0x7f, 0x56, 0x13, 0x5f, 0xc3, 0x8b, 0x5c,
            0xa7, 0x00, 0x83, 0xa8, 0xee, 0xca, 0xad, 0xa0
        ]
    );
    assert_eq!(
        issuer,
        &[
            0x30, 0x12, 0x31, 0x10, 0x30, 0x0E, 0x06, 0x03, 0x55, 0x04, 0x03, 0x0C, 0x07, 0x54,
            0x65, 0x73, 0x74, 0x20, 0x43, 0x41
        ]
    );
    assert_eq!(
        subject,
        &[
            0x30, 0x12, 0x31, 0x10, 0x30, 0x0E, 0x06, 0x03, 0x55, 0x04, 0x03, 0x0C, 0x07, 0x56,
            0x31, 0x20, 0x43, 0x65, 0x72, 0x74
        ]
    );
}

#[test]
fn test_read_digest() {
    // SEQUENCE
    //   SEQUENCE
    //     OBJECT IDENTIFIER 2.16.840.1.101.3.4.2.1 sha-256
    //       NULL
    //   OCTET STRING 1A7FCDB9A5F649F954885CFE145F3E93F0D1FA72BE980CC6EC82C70E1407C7D2
    let digest_info = [
        0x30, 0x31, 0x30, 0x0d, 0x06, 0x09, 0x60, 0x86, 0x48, 0x1, 0x65, 0x03, 0x04, 0x02,
        0x01, 0x05, 0x00, 0x04, 0x20, 0x1a, 0x7f, 0xcd, 0xb9, 0xa5, 0xf6, 0x49, 0xf9, 0x54,
        0x88, 0x5c, 0xfe, 0x14, 0x5f, 0x3e, 0x93, 0xf0, 0xd1, 0xfa, 0x72, 0xbe, 0x98, 0x0c,
        0xc6, 0xec, 0x82, 0xc7, 0x0e, 0x14, 0x07, 0xc7, 0xd2,
    ];
    let result = read_digest_info(&digest_info);
    assert!(result.is_ok());
    let (oid, digest) = result.unwrap();
    assert_eq!(oid, &[0x60, 0x86, 0x48, 0x1, 0x65, 0x03, 0x04, 0x02, 0x01]);
    assert_eq!(
        digest,
        &[
            0x1a, 0x7f, 0xcd, 0xb9, 0xa5, 0xf6, 0x49, 0xf9, 0x54, 0x88, 0x5c, 0xfe, 0x14, 0x5f,
            0x3e, 0x93, 0xf0, 0xd1, 0xfa, 0x72, 0xbe, 0x98, 0x0c, 0xc6, 0xec, 0x82, 0xc7, 0x0e,
            0x14, 0x07, 0xc7, 0xd2
        ]
    );
}

#[test]
fn test_read_digest_rejects_nonempty_null() {
    let digest_info = [
        0x30, 0x0c, 0x30, 0x07, 0x06, 0x02, 0x2a, 0x03, 0x05, 0x01, 0x00, 0x04, 0x01, 0xaa,
    ];
    assert_eq!(read_digest_info(&digest_info), Err(Error::InvalidInput));
}

#[test]
fn test_read_spki_algorithm_parameters() {
    let spki = [
        0x30, 0x59, 0x30, 0x13, 0x06, 0x07, 0x2a, 0x86, 0x48, 0xce, 0x3d, 0x02, 0x01, 0x06,
        0x08, 0x2a, 0x86, 0x48, 0xce, 0x3d, 0x03, 0x01, 0x07, 0x03, 0x42, 0x00, 0x04, 0x4f,
        0xbf, 0xbb, 0xbb, 0x61, 0xe0, 0xf8, 0xf9, 0xb1, 0xa6, 0x0a, 0x59, 0xac, 0x87, 0x04,
        0xe2, 0xec, 0x05, 0x0b, 0x42, 0x3e, 0x3c, 0xf7, 0x2e, 0x92, 0x3f, 0x2c, 0x4f, 0x79,
        0x4b, 0x45, 0x5c, 0x2a, 0x69, 0xd2, 0x33, 0x45, 0x6c, 0x36, 0xc4, 0x11, 0x9d, 0x07,
        0x06, 0xe0, 0x0e, 0xed, 0xc8, 0xd1, 0x93, 0x90, 0xd7, 0x99, 0x1b, 0x7b, 0x2d, 0x07,
        0xa3, 0x04, 0xea, 0xa0, 0x4a, 0xa6, 0xc0,
    ];
    let result = read_spki_algorithm_parameters(&spki);
    assert!(result.is_ok());
    let parameters = result.unwrap();
    // The encoded OID of the secp256r1 curve: full tag, length, and value.
    assert_eq!(
        parameters,
        vec![0x06, 0x08, 0x2a, 0x86, 0x48, 0xce, 0x3d, 0x03, 0x01, 0x07]
    );
}

#[test]
fn integer_sequence_round_trip() {
    // Encoding two fixed-width integers in a SEQUENCE and reading them
    // back yields the original magnitude bytes, less the added leading
    // zero on the second.
    let encoded = [0x30, 0x08, 0x02, 0x02, 0x12, 0x34, 0x02, 0x02, 0x00, 0x80];
    let (r, s) = read_ec_sig_point(&encoded).unwrap();
    assert_eq!(r, &[0x12, 0x34][..]);
    assert_eq!(s, &[0x80][..]);
}
