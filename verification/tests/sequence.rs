use rsclientcerts::der::{CONSTRUCTED, SEQUENCE};
use rsclientcerts::sequence::Sequence;
use rsclientcerts::Error;

#[test]
fn sequence_must_consume_whole_input() {
    // A well-formed empty SEQUENCE followed by one trailing byte.
    let input = [SEQUENCE | CONSTRUCTED, 0x00, 0xff];
    let err = match Sequence::new(&input) {
        Ok(_) => panic!("trailing bytes were accepted"),
        Err(e) => e,
    };
    assert_eq!(err, Error::ExtraInput);
    // Without the trailing byte the same input is accepted.
    let input = [SEQUENCE | CONSTRUCTED, 0x00];
    assert!(Sequence::new(&input).unwrap().at_end());
}

#[test]
fn sequence_reads_typed_items() {
    // SEQUENCE { OID 1.2, OCTET STRING 0xAABB, NULL }
    let input = [
        SEQUENCE | CONSTRUCTED, 0x09, 0x06, 0x01, 0x2a, 0x04, 0x02, 0xaa, 0xbb, 0x05, 0x00,
    ];
    let mut sequence = Sequence::new(&input).unwrap();
    assert_eq!(sequence.read_oid().unwrap(), &[0x2a][..]);
    assert_eq!(sequence.read_octet_string().unwrap(), &[0xaa, 0xbb][..]);
    assert!(sequence.read_null().is_ok());
    assert!(sequence.at_end());
}

#[test]
fn sequence_null_must_be_empty() {
    // SEQUENCE { NULL with one content byte }
    let input = [SEQUENCE | CONSTRUCTED, 0x03, 0x05, 0x01, 0x00];
    let mut sequence = Sequence::new(&input).unwrap();
    assert_eq!(sequence.read_null().unwrap_err(), Error::InvalidInput);
}

#[test]
fn sequence_unsigned_integer_strips_one_leading_zero() {
    // SEQUENCE { INTEGER 0x0080, INTEGER 0x00, INTEGER 0x000001 }
    let input = [
        SEQUENCE | CONSTRUCTED, 0x0c, 0x02, 0x02, 0x00, 0x80, 0x02, 0x01, 0x00, 0x02, 0x03,
        0x00, 0x00, 0x01,
    ];
    let mut sequence = Sequence::new(&input).unwrap();
    assert_eq!(sequence.read_unsigned_integer().unwrap(), &[0x80][..]);
    // A lone zero byte is kept: the result is never empty.
    assert_eq!(sequence.read_unsigned_integer().unwrap(), &[0x00][..]);
    // Only a single superfluous zero is stripped.
    assert_eq!(sequence.read_unsigned_integer().unwrap(), &[0x00, 0x01][..]);
    assert!(sequence.at_end());
}

#[test]
fn sequence_empty_integer_is_invalid() {
    let input = [SEQUENCE | CONSTRUCTED, 0x02, 0x02, 0x00];
    let mut sequence = Sequence::new(&input).unwrap();
    assert_eq!(sequence.read_unsigned_integer().unwrap_err(), Error::InvalidInput);
}

#[test]
fn sequence_optional_tagged_value() {
    // SEQUENCE { [0] EXPLICIT { 0x02 0x01 0x05 }, INTEGER 7 }
    let input = [
        SEQUENCE | CONSTRUCTED, 0x08, 0xa0, 0x03, 0x02, 0x01, 0x05, 0x02, 0x01, 0x07,
    ];
    let mut sequence = Sequence::new(&input).unwrap();
    let tagged = sequence.read_optional_tagged_value(0).unwrap();
    assert_eq!(tagged, Some(&[0x02, 0x01, 0x05][..]));
    assert_eq!(sequence.read_unsigned_integer().unwrap(), &[0x07][..]);
    assert!(sequence.at_end());

    // Without the tagged value, the reader reports absence and stays put.
    let input = [SEQUENCE | CONSTRUCTED, 0x03, 0x02, 0x01, 0x07];
    let mut sequence = Sequence::new(&input).unwrap();
    assert_eq!(sequence.read_optional_tagged_value(0).unwrap(), None);
    assert_eq!(sequence.read_unsigned_integer().unwrap(), &[0x07][..]);
}

#[test]
fn sequence_encoded_component_is_verbatim() {
    // SEQUENCE { INTEGER 0x1234 }: the component comes back with its tag
    // and length bytes, exactly as encoded.
    let input = [SEQUENCE | CONSTRUCTED, 0x04, 0x02, 0x02, 0x12, 0x34];
    let mut sequence = Sequence::new(&input).unwrap();
    let encoded = sequence.read_encoded_sequence_component(0x02).unwrap();
    assert_eq!(encoded, vec![0x02, 0x02, 0x12, 0x34]);
    assert!(sequence.at_end());
}

#[test]
fn sequence_nested_sequences() {
    // SEQUENCE { SEQUENCE { INTEGER 1 }, INTEGER 2 }
    let input = [
        SEQUENCE | CONSTRUCTED, 0x08, 0x30, 0x03, 0x02, 0x01, 0x01, 0x02, 0x01, 0x02,
    ];
    let mut outer = Sequence::new(&input).unwrap();
    let mut inner = outer.read_sequence().unwrap();
    assert_eq!(inner.read_unsigned_integer().unwrap(), &[0x01][..]);
    assert!(inner.at_end());
    assert_eq!(outer.read_unsigned_integer().unwrap(), &[0x02][..]);
    assert!(outer.at_end());
}

#[test]
fn sequence_read_rest_takes_remainder() {
    let input = [SEQUENCE | CONSTRUCTED, 0x03, 0x01, 0x02, 0x03];
    let mut sequence = Sequence::new(&input).unwrap();
    assert_eq!(sequence.read_rest(), &[0x01, 0x02, 0x03][..]);
    assert!(sequence.at_end());
}
