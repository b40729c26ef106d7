use pkcs7_decoder::algorithm::AlgorithmIdentifier;
use pkcs7_decoder::attribute::{Attribute, AuthenticatedAttributes};
use pkcs7_decoder::ber::{read_first, Frame, Mode};
use pkcs7_decoder::certificate::{take_version, Certificate, TbsCertificate};
use pkcs7_decoder::cursor::Cursor;
use pkcs7_decoder::error::{DecodeError, ErrorKind, Field};
use pkcs7_decoder::oid::Oid;
use pkcs7_decoder::pkcs7::{load_pkcs7, Pkcs7};
use pkcs7_decoder::primitive::{take_bit_string, take_u8};
use pkcs7_decoder::public_key::SubjectPublicKeyInfo;
use pkcs7_decoder::signed_data::ContentInfo;
use pkcs7_decoder::signer::SignerIdentifier;
use pkcs7_decoder::validity::Validity;

fn error(kind: ErrorKind, field: Field, offset: usize) -> DecodeError {
    DecodeError { kind, field, offset }
}

fn tlv(identifier: u8, content: &[u8]) -> Vec<u8> {
    assert!(content.len() < 0x80);
    let mut out = vec![identifier, content.len() as u8];
    out.extend_from_slice(content);
    out
}

fn sequence(parts: &[Vec<u8>]) -> Vec<u8> {
    tlv(0x30, &parts.concat())
}

const RSA_ENCRYPTION: [u8; 9] = [0x2A, 0x86, 0x48, 0x86, 0xF7, 0x0D, 0x01, 0x01, 0x01];
const EC_PUBLIC_KEY: [u8; 7] = [0x2A, 0x86, 0x48, 0xCE, 0x3D, 0x02, 0x01];

#[test]
fn first_value_is_framed_by_its_header() {
    let frame = read_first(&[0x04, 0x02, 0xAA, 0xBB, 0xCC], Mode::Der).unwrap();
    assert_eq!((frame.header_len, frame.content_len), (2, 2));
    let long = [vec![0x04, 0x81, 0x80], vec![0u8; 0x80]].concat();
    let frame = read_first(&long, Mode::Der).unwrap();
    assert_eq!((frame.header_len, frame.content_len), (3, 0x80));
    let high = [0x5F, 0x81, 0x01, 0x01, 0x07];
    let frame = read_first(&high, Mode::Der).unwrap();
    assert_eq!((frame.header_len, frame.content_len), (4, 1));
    let nested = sequence(&[tlv(0x02, &[1]), sequence(&[tlv(0x05, &[])])]);
    let frame = read_first(&nested, Mode::Der).unwrap();
    assert_eq!((frame.header_len, frame.content_len), (2, nested.len() - 2));
}

#[test]
fn first_value_must_be_well_framed() {
    assert!(read_first(&[], Mode::Ber).is_none());
    assert!(read_first(&[0x04], Mode::Ber).is_none());
    assert!(read_first(&[0x04, 0x03, 0xAA, 0xBB], Mode::Ber).is_none());
    assert!(read_first(&[0x04, 0x85, 0, 0, 0, 0, 0], Mode::Ber).is_none());
    assert!(read_first(&[0x30, 0x80, 0x00, 0x00], Mode::Ber).is_none());
    assert!(read_first(&[0x04, 0x80, 0x00, 0x00], Mode::Ber).is_none());
    assert!(read_first(&[0x30, 0x04, 0x02, 0x05, 0x00], Mode::Ber).is_none());
    assert!(read_first(&[0x00, 0x00], Mode::Ber).is_none());
    assert!(read_first(&[0x20, 0x00], Mode::Ber).is_none());
    assert!(read_first(&[0x1F, 0x81, 0x82, 0x83, 0x04, 0x00], Mode::Ber).is_none());
    assert!(read_first(&[0x1F, 0x81], Mode::Ber).is_none());
    assert!(read_first(&[0x04, 0x82, 0x00], Mode::Ber).is_none());
    assert_eq!(
        read_first(&[0x30, 0x03, 0x02, 0x05, 0x00], Mode::Ber),
        Some(Frame { header_len: 2, content_len: 3 })
    );
    assert_eq!(
        read_first(&[0x30, 0x04, 0x30, 0x80, 0x00, 0x00], Mode::Ber),
        Some(Frame { header_len: 2, content_len: 4 })
    );
    let long = [vec![0x30, 0x84, 0x00, 0x00, 0x01, 0x00], vec![0u8; 256]].concat();
    assert_eq!(read_first(&long, Mode::Ber), Some(Frame { header_len: 6, content_len: 256 }));
    assert_eq!(read_first(&long, Mode::Der), None);
    assert_eq!(read_first(&long[..long.len() - 1], Mode::Ber), None);
    for (octets, least) in [(1usize, 0x80usize), (2, 0x100), (3, 0x1_0000)] {
        for (length, strict) in [(least - 1, false), (least, true)] {
            let mut value = vec![0x04, 0x80 + octets as u8];
            value.extend((0..octets).rev().map(|i| (length >> (8 * i)) as u8));
            value.extend(vec![0u8; length]);
            let frame = Frame { header_len: 2 + octets, content_len: length };
            assert_eq!(read_first(&value, Mode::Ber), Some(frame));
            assert_eq!(read_first(&value, Mode::Der), if strict { Some(frame) } else { None });
        }
    }
    assert!(read_first(&[0x04, 0x81, 0x01, 0xAA], Mode::Ber).is_some());
    assert!(read_first(&[0x04, 0x81, 0x01, 0xAA], Mode::Der).is_none());
    assert!(read_first(&[0x30, 0x04, 0x04, 0x81, 0x01, 0xAA], Mode::Der).is_some());
}

#[test]
fn missing_value_at_the_end() {
    let mut cons = Cursor::new(&[], Mode::Der);
    assert_eq!(
        take_u8(&mut cons, Field::Version),
        Err(error(ErrorKind::MissingValue, Field::Version, 0))
    );
    let empty = sequence(&[]);
    let mut cons = Cursor::new(&empty, Mode::Der);
    assert_eq!(
        Validity::take_from(&mut cons),
        Err(error(ErrorKind::MissingValue, Field::NotBefore, 2))
    );
    let one = sequence(&[tlv(0x17, b"250101000000Z")]);
    let mut cons = Cursor::new(&one, Mode::Der);
    assert_eq!(
        Validity::take_from(&mut cons),
        Err(error(ErrorKind::MissingValue, Field::NotAfter, one.len()))
    );
    assert_eq!(cons.pos, 0);
}

#[test]
fn unexpected_tag_or_form() {
    let bytes = tlv(0x31, &[]);
    let mut cons = Cursor::new(&bytes, Mode::Der);
    assert_eq!(
        Validity::take_from(&mut cons),
        Err(error(ErrorKind::UnexpectedTag, Field::Validity, 0))
    );
    let primitive = tlv(0x10, &[]);
    let mut cons = Cursor::new(&primitive, Mode::Der);
    assert_eq!(
        AlgorithmIdentifier::take_from(&mut cons),
        Err(error(ErrorKind::UnexpectedTag, Field::Algorithm, 0))
    );
    let constructed_integer = tlv(0x22, &[]);
    let mut cons = Cursor::new(&constructed_integer, Mode::Der);
    assert_eq!(
        take_u8(&mut cons, Field::Version),
        Err(error(ErrorKind::UnexpectedTag, Field::Version, 0))
    );
    let primitive_version = tlv(0x80, &[0x02]);
    let mut cons = Cursor::new(&primitive_version, Mode::Der);
    assert_eq!(
        take_version(&mut cons),
        Err(error(ErrorKind::UnexpectedTag, Field::Version, 0))
    );
    let high_tag = [0x3F, 0x10, 0x00];
    let mut cons = Cursor::new(&high_tag, Mode::Der);
    assert_eq!(
        Validity::take_from(&mut cons),
        Err(error(ErrorKind::UnexpectedTag, Field::Validity, 0))
    );
}

#[test]
fn version_is_absent_where_another_tag_stands() {
    let serial = tlv(0x02, &[0x05]);
    let mut cons = Cursor::new(&serial, Mode::Der);
    assert_eq!(take_version(&mut cons), Ok(None));
    assert_eq!(cons.pos, 0);
    let version = tlv(0xA0, &tlv(0x02, &[0x02]));
    let mut cons = Cursor::new(&version, Mode::Der);
    assert_eq!(take_version(&mut cons), Ok(Some(2)));
    assert_eq!(cons.pos, version.len());
    let mut cons = Cursor::new(&[], Mode::Der);
    assert_eq!(take_version(&mut cons), Ok(None));
    let two = tlv(0xA0, &[tlv(0x02, &[0x02]), tlv(0x02, &[0x03])].concat());
    let mut cons = Cursor::new(&two, Mode::Der);
    assert_eq!(take_version(&mut cons), Err(error(ErrorKind::TrailingData, Field::Version, 5)));
}

#[test]
fn trailing_data_in_a_value() {
    let bytes =
        sequence(&[tlv(0x17, b"250101000000Z"), tlv(0x17, b"260101000000Z"), tlv(0x05, &[])]);
    let mut cons = Cursor::new(&bytes, Mode::Der);
    assert_eq!(
        Validity::take_from(&mut cons),
        Err(error(ErrorKind::TrailingData, Field::Validity, 32))
    );
}

#[test]
fn malformed_value_inside_a_value() {
    let bytes = [0x30, 0x03, 0x17, 0x05, 0x00];
    let mut cons = Cursor::new(&bytes, Mode::Der);
    assert_eq!(
        Validity::take_from(&mut cons),
        Err(error(ErrorKind::Malformed, Field::NotBefore, 2))
    );
    let bytes = [0x30, 0x04, 0x17, 0x05, 0x00];
    let mut cons = Cursor::new(&bytes, Mode::Der);
    assert_eq!(
        Validity::take_from(&mut cons),
        Err(error(ErrorKind::Malformed, Field::Validity, 0))
    );
    let bytes = [0x17, 0x05, 0x00];
    let mut cons = Cursor { data: &bytes, pos: 0, end: 3, mode: Mode::Der };
    assert_eq!(
        pkcs7_decoder::validity::take_time(&mut cons, Field::NotBefore),
        Err(error(ErrorKind::Malformed, Field::NotBefore, 0))
    );
}

#[test]
fn integers_are_in_the_range_of_a_byte() {
    for (content, expected) in [
        (vec![0x00], Some(0u8)),
        (vec![0x7F], Some(127)),
        (vec![0x00, 0x80], Some(128)),
        (vec![0x00, 0xFF], Some(255)),
        (vec![], None),
        (vec![0x80], None),
        (vec![0xFF], None),
        (vec![0x00, 0x7F], None),
        (vec![0x01, 0x00], None),
        (vec![0x00, 0x01, 0x00], None),
    ] {
        let bytes = tlv(0x02, &content);
        let mut cons = Cursor::new(&bytes, Mode::Ber);
        let expected = match expected {
            Some(n) => Ok(n),
            None => Err(error(ErrorKind::InvalidInteger, Field::Version, 0)),
        };
        assert_eq!(take_u8(&mut cons, Field::Version), expected, "{:?}", content);
    }
}

#[test]
fn object_identifiers_end_a_component() {
    assert!(Oid::from_content(&[]).is_none());
    assert!(Oid::from_content(&[0x2A, 0x86]).is_none());
    let oid = Oid::from_content(&RSA_ENCRYPTION).unwrap();
    assert_eq!(oid.as_bytes(), &RSA_ENCRYPTION);
    assert_eq!(oid.to_string(), "1.2.840.113549.1.1.1");
    assert_eq!(oid.clone(), oid);
    assert_eq!(Oid::from_content(&[0x55, 0x04, 0x03]).unwrap().to_string(), "2.5.4.3");
    let bytes = tlv(0x06, &[0x2A, 0x86]);
    let mut cons = Cursor::new(&bytes, Mode::Der);
    assert_eq!(
        Oid::take_from(&mut cons, Field::ContentType),
        Err(error(ErrorKind::InvalidOid, Field::ContentType, 0))
    );
    let bytes = tlv(0x06, &[]);
    let mut cons = Cursor::new(&bytes, Mode::Der);
    assert_eq!(
        Oid::take_from(&mut cons, Field::ContentType),
        Err(error(ErrorKind::InvalidOid, Field::ContentType, 0))
    );
}

#[test]
fn times_are_checked_where_they_stand() {
    let bytes = sequence(&[tlv(0x17, b"250101000000Z"), tlv(0x17, b"2601010000Z")]);
    let mut cons = Cursor::new(&bytes, Mode::Der);
    assert_eq!(
        Validity::take_from(&mut cons),
        Err(error(ErrorKind::InvalidTime, Field::NotAfter, 17))
    );
    let bytes = sequence(&[tlv(0x17, &[0xFF; 13]), tlv(0x17, b"260101000000Z")]);
    let mut cons = Cursor::new(&bytes, Mode::Der);
    assert_eq!(
        Validity::take_from(&mut cons),
        Err(error(ErrorKind::InvalidTime, Field::NotBefore, 2))
    );
    let bytes = sequence(&[tlv(0x17, b"260101000000Z"), tlv(0x18, b"250101000000Z")]);
    let mut cons = Cursor::new(&bytes, Mode::Der);
    assert_eq!(
        Validity::take_from(&mut cons),
        Ok(Validity { not_before: 1767225600, not_after: 1735689600 })
    );
    assert_eq!(cons.pos, bytes.len());
}

#[test]
fn bit_strings_declare_no_unused_bits() {
    let bytes = tlv(0x03, &[0x00, 0xAA, 0xBB]);
    let mut cons = Cursor::new(&bytes, Mode::Der);
    let bits = take_bit_string(&mut cons, Field::SignatureValue).unwrap();
    assert_eq!((bits.pos, bits.end), (3, 5));
    assert_eq!(cons.pos, 5);
    for content in [vec![], vec![0x01, 0xAA], vec![0x07, 0x80]] {
        let bytes = tlv(0x03, &content);
        let mut cons = Cursor::new(&bytes, Mode::Der);
        assert_eq!(
            take_bit_string(&mut cons, Field::SignatureValue).unwrap_err(),
            error(ErrorKind::InvalidBitString, Field::SignatureValue, 0)
        );
        assert_eq!(cons.pos, 0);
    }
    let octets = tlv(0x04, &[0x00, 0xAA]);
    let mut cons = Cursor::new(&octets, Mode::Der);
    assert_eq!(
        take_bit_string(&mut cons, Field::SignatureValue).unwrap_err(),
        error(ErrorKind::UnexpectedTag, Field::SignatureValue, 0)
    );
}

#[test]
fn key_material_of_an_rsa_key_is_its_modulus() {
    let key = sequence(&[tlv(0x02, &[0x00, 0x91, 0x92, 0x93]), tlv(0x02, &[0x03])]);
    let bits = [vec![0x00], key].concat();
    let algorithm = sequence(&[tlv(0x06, &RSA_ENCRYPTION), tlv(0x05, &[])]);
    let bytes = sequence(&[algorithm, tlv(0x03, &bits)]);
    let mut cons = Cursor::new(&bytes, Mode::Der);
    let info = SubjectPublicKeyInfo::take_from(&mut cons).unwrap();
    assert_eq!(info.subject_public_key, vec![0x00, 0x91, 0x92, 0x93]);
    assert_eq!(info.algorithm.parameters, Some(vec![0x05, 0x00]));
}

#[test]
fn key_material_of_another_key_is_all_its_bits() {
    let point = [0x04, 0x11, 0x22, 0x33, 0x44];
    let bits = [vec![0x00], point.to_vec()].concat();
    let algorithm = sequence(&[tlv(0x06, &EC_PUBLIC_KEY)]);
    let bytes = sequence(&[algorithm, tlv(0x03, &bits)]);
    let mut cons = Cursor::new(&bytes, Mode::Der);
    let info = SubjectPublicKeyInfo::take_from(&mut cons).unwrap();
    assert_eq!(info.subject_public_key, point.to_vec());
    assert_eq!(info.algorithm.parameters, None);
    assert_eq!(info.algorithm.algorithm.to_string(), "1.2.840.10045.2.1");
}

#[test]
fn an_rsa_key_is_a_sequence_of_two_integers() {
    let algorithm = sequence(&[tlv(0x06, &RSA_ENCRYPTION), tlv(0x05, &[])]);
    let wrap = |key: Vec<u8>| {
        let bits = [vec![0x00], key].concat();
        sequence(&[algorithm.clone(), tlv(0x03, &bits)])
    };
    let at = algorithm.len() + 2 + 3;
    let only_modulus = wrap(sequence(&[tlv(0x02, &[0x11])]));
    let mut cons = Cursor::new(&only_modulus, Mode::Der);
    assert_eq!(
        SubjectPublicKeyInfo::take_from(&mut cons),
        Err(error(ErrorKind::MissingValue, Field::PublicKey, at + 2 + 3))
    );
    let three = wrap(sequence(&[tlv(0x02, &[0x11]), tlv(0x02, &[0x03]), tlv(0x02, &[0x05])]));
    let mut cons = Cursor::new(&three, Mode::Der);
    assert_eq!(
        SubjectPublicKeyInfo::take_from(&mut cons),
        Err(error(ErrorKind::TrailingData, Field::PublicKey, at + 2 + 6))
    );
    let not_a_sequence = wrap(tlv(0x04, &[0x11]));
    let mut cons = Cursor::new(&not_a_sequence, Mode::Der);
    assert_eq!(
        SubjectPublicKeyInfo::take_from(&mut cons),
        Err(error(ErrorKind::UnexpectedTag, Field::PublicKey, at))
    );
    let followed =
        wrap([sequence(&[tlv(0x02, &[0x11]), tlv(0x02, &[0x03])]), tlv(0x05, &[])].concat());
    let mut cons = Cursor::new(&followed, Mode::Der);
    assert_eq!(
        SubjectPublicKeyInfo::take_from(&mut cons),
        Err(error(ErrorKind::TrailingData, Field::PublicKey, at + 8))
    );
}

#[test]
fn content_info_holds_optional_content() {
    let data = [0x2A, 0x86, 0x48, 0x86, 0xF7, 0x0D, 0x01, 0x07, 0x01];
    let with = sequence(&[tlv(0x06, &data), tlv(0xA0, &tlv(0x04, b"hello"))]);
    let mut cons = Cursor::new(&with, Mode::Der);
    let info = ContentInfo::take_from(&mut cons).unwrap();
    assert_eq!(info.content, Some(b"hello".to_vec()));
    assert_eq!(info.content_type.to_string(), "1.2.840.113549.1.7.1");
    let without = sequence(&[tlv(0x06, &data)]);
    let mut cons = Cursor::new(&without, Mode::Der);
    assert_eq!(ContentInfo::take_from(&mut cons).unwrap().content, None);
    let other = sequence(&[tlv(0x06, &data), tlv(0xA1, &tlv(0x04, b"hello"))]);
    let mut cons = Cursor::new(&other, Mode::Der);
    assert_eq!(
        ContentInfo::take_from(&mut cons),
        Err(error(ErrorKind::TrailingData, Field::ContentInfo, 13))
    );
    let nested = sequence(&[tlv(0x06, &data), tlv(0xA0, &sequence(&[]))]);
    let mut cons = Cursor::new(&nested, Mode::Der);
    assert_eq!(
        ContentInfo::take_from(&mut cons),
        Err(error(ErrorKind::UnexpectedTag, Field::Content, 15))
    );
}

#[test]
fn signer_identifier_keeps_its_bytes() {
    let name = sequence(&[tlv(0x31, &[])]);
    let bytes = sequence(&[name, tlv(0x02, &[0x00, 0xFF, 0x01])]);
    let mut cons = Cursor::new(&bytes, Mode::Der);
    let identifier = SignerIdentifier::take_from(&mut cons).unwrap();
    assert_eq!(identifier.issuer, vec![0x31, 0x00]);
    assert_eq!(identifier.serial_number, vec![0x00, 0xFF, 0x01]);
}

#[test]
fn attributes_keep_the_content_of_their_set() {
    let content_type = [0x2A, 0x86, 0x48, 0x86, 0xF7, 0x0D, 0x01, 0x09, 0x03];
    let bytes = sequence(&[tlv(0x06, &content_type), tlv(0x31, &tlv(0x04, &[9, 8, 7]))]);
    let mut cons = Cursor::new(&bytes, Mode::Der);
    let attribute = Attribute::take_from(&mut cons).unwrap();
    assert_eq!(attribute.value, vec![0x04, 0x03, 9, 8, 7]);
    assert_eq!(
        attribute.to_string(),
        "Attribute {\n  oid: 1.2.840.113549.1.9.3,\n  value: [4, 3, 9, 8, 7]\n}"
    );
    let cons = Cursor::new(&[0x30, 0x00], Mode::Der);
    let found = Attribute::take_all(&cons);
    assert!(found.attributes.is_empty());
    assert_eq!(found.error, Some(error(ErrorKind::MissingValue, Field::Attribute, 2)));
    let held = [bytes.clone(), vec![0x31, 0x00]].concat();
    let cons = Cursor::new(&held, Mode::Der);
    let found = Attribute::take_all(&cons);
    assert_eq!(found.attributes.len(), 1);
    assert_eq!(
        found.error,
        Some(error(ErrorKind::TrailingGarbage, Field::AuthenticatedAttributes, bytes.len()))
    );
}

#[test]
fn authenticated_attributes_decode_from_their_set() {
    assert_eq!(
        AuthenticatedAttributes::decode(&[0x31, 0x00]),
        Ok(AuthenticatedAttributes { attributes: vec![] })
    );
    assert_eq!(
        AuthenticatedAttributes::decode(&[0xA0, 0x00]),
        Err(error(ErrorKind::UnexpectedTag, Field::AuthenticatedAttributes, 0))
    );
    assert_eq!(
        AuthenticatedAttributes::decode(&[0x31, 0x02, 0x05, 0x00]),
        Err(error(ErrorKind::TrailingGarbage, Field::AuthenticatedAttributes, 2))
    );
}

#[test]
fn certificate_needs_its_parts() {
    let mut cons = Cursor::new(&[0x30, 0x00], Mode::Der);
    assert_eq!(
        Certificate::take_from(&mut cons),
        Err(error(ErrorKind::MissingValue, Field::TbsCertificate, 2))
    );
    let mut cons = Cursor::new(&[0x30, 0x00], Mode::Der);
    assert_eq!(
        TbsCertificate::take_from(&mut cons),
        Err(error(ErrorKind::MissingValue, Field::SerialNumber, 2))
    );
    let mut cons = Cursor::new(&[0x30, 0x02, 0x30, 0x00], Mode::Der);
    assert_eq!(
        TbsCertificate::take_from(&mut cons),
        Err(error(ErrorKind::UnexpectedTag, Field::SerialNumber, 2))
    );
}

#[test]
fn envelope_needs_signed_data() {
    let signed_data = [0x2A, 0x86, 0x48, 0x86, 0xF7, 0x0D, 0x01, 0x07, 0x02];
    let bare = sequence(&[tlv(0x06, &signed_data)]);
    assert_eq!(
        Pkcs7::decode(&bare, Mode::Der),
        Err(error(ErrorKind::MissingValue, Field::Content, 13))
    );
    let empty = sequence(&[tlv(0x06, &signed_data), tlv(0xA0, &[])]);
    assert_eq!(
        Pkcs7::decode(&empty, Mode::Der),
        Err(error(ErrorKind::MissingValue, Field::SignedData, 15))
    );
    let other = tlv(0x31, &[]);
    assert_eq!(
        Pkcs7::decode(&other, Mode::Der),
        Err(error(ErrorKind::UnexpectedTag, Field::Envelope, 0))
    );
    assert_eq!(
        Pkcs7::decode(&sequence(&[tlv(0x04, &[])]), Mode::Der),
        Err(error(ErrorKind::UnexpectedTag, Field::ContentType, 2))
    );
}

#[test]
fn pem_must_frame_the_envelope() {
    assert_eq!(
        load_pkcs7(b"not a pem document"),
        Err(error(ErrorKind::InvalidPem, Field::Pem, 0))
    );
    assert_eq!(load_pkcs7(b""), Err(error(ErrorKind::InvalidPem, Field::Pem, 0)));
    let document = pem::encode(&pem::Pem::new("PKCS7", vec![0x31, 0x00]));
    assert_eq!(
        load_pkcs7(document.as_bytes()),
        Err(error(ErrorKind::UnexpectedTag, Field::Envelope, 0))
    );
}
