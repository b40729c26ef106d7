use pkcs7_decoder::attribute::{encode_set, AuthenticatedAttributes};
use pkcs7_decoder::ber::Mode;
use pkcs7_decoder::certificate::Certificate;
use pkcs7_decoder::cursor::Cursor;
use pkcs7_decoder::error::{DecodeError, ErrorKind, Field};
use pkcs7_decoder::pkcs7::Pkcs7;
use pkcs7_decoder::signed_data::SignedData;
use pkcs7_decoder::signer::SignerInfo;

const SHA256_WITH_RSA: [u8; 9] = [0x2A, 0x86, 0x48, 0x86, 0xF7, 0x0D, 0x01, 0x01, 0x0B];
const RSA_ENCRYPTION: [u8; 9] = [0x2A, 0x86, 0x48, 0x86, 0xF7, 0x0D, 0x01, 0x01, 0x01];
const SIGNED_DATA: [u8; 9] = [0x2A, 0x86, 0x48, 0x86, 0xF7, 0x0D, 0x01, 0x07, 0x02];
const DATA: [u8; 9] = [0x2A, 0x86, 0x48, 0x86, 0xF7, 0x0D, 0x01, 0x07, 0x01];
const SHA256: [u8; 9] = [0x60, 0x86, 0x48, 0x01, 0x65, 0x03, 0x04, 0x02, 0x01];
const CONTENT_TYPE: [u8; 9] = [0x2A, 0x86, 0x48, 0x86, 0xF7, 0x0D, 0x01, 0x09, 0x03];

fn length(n: usize) -> Vec<u8> {
    if n < 0x80 {
        vec![n as u8]
    } else if n < 0x100 {
        vec![0x81, n as u8]
    } else {
        vec![0x82, (n >> 8) as u8, n as u8]
    }
}

fn tlv(identifier: u8, content: &[u8]) -> Vec<u8> {
    let mut out = vec![identifier];
    out.extend(length(content.len()));
    out.extend_from_slice(content);
    out
}

fn join(parts: &[Vec<u8>]) -> Vec<u8> {
    parts.concat()
}

fn sequence(parts: &[Vec<u8>]) -> Vec<u8> {
    tlv(0x30, &join(parts))
}

fn set(parts: &[Vec<u8>]) -> Vec<u8> {
    tlv(0x31, &join(parts))
}

fn context(parts: &[Vec<u8>]) -> Vec<u8> {
    tlv(0xA0, &join(parts))
}

fn oid(content: &[u8]) -> Vec<u8> {
    tlv(0x06, content)
}

fn algorithm(content: &[u8]) -> Vec<u8> {
    sequence(&[oid(content), vec![0x05, 0x00]])
}

fn name_content() -> Vec<u8> {
    set(&[sequence(&[oid(&[0x55, 0x04, 0x03]), tlv(0x0C, b"Test CA")])])
}

fn name() -> Vec<u8> {
    tlv(0x30, &name_content())
}

fn modulus() -> Vec<u8> {
    let mut m = vec![0x00];
    m.extend((0..64u8).map(|i| 0x80 | i));
    m
}

fn public_key() -> Vec<u8> {
    let key = sequence(&[tlv(0x02, &modulus()), tlv(0x02, &[0x01, 0x00, 0x01])]);
    let mut bits = vec![0x00];
    bits.extend(key);
    sequence(&[algorithm(&RSA_ENCRYPTION), tlv(0x03, &bits)])
}

fn tbs_certificate() -> Vec<u8> {
    sequence(&[
        context(&[tlv(0x02, &[0x02])]),
        tlv(0x02, &[0x01, 0x23, 0xAB]),
        algorithm(&SHA256_WITH_RSA),
        name(),
        sequence(&[tlv(0x17, b"250101000000Z"), tlv(0x17, b"991231235959Z")]),
        name(),
        public_key(),
        tlv(0xA3, &sequence(&[])),
    ])
}

fn signature_value() -> Vec<u8> {
    (0..32u8).map(|i| i.wrapping_mul(7)).collect()
}

fn certificate() -> Vec<u8> {
    let mut bits = vec![0x00];
    bits.extend(signature_value());
    sequence(&[tbs_certificate(), algorithm(&SHA256_WITH_RSA), tlv(0x03, &bits)])
}

fn attribute() -> Vec<u8> {
    sequence(&[oid(&CONTENT_TYPE), set(&[oid(&DATA)])])
}

fn signer_info_with(attributes: Option<Vec<u8>>) -> Vec<u8> {
    let mut parts = vec![
        tlv(0x02, &[0x01]),
        sequence(&[name(), tlv(0x02, &[0x01, 0x23, 0xAB])]),
        algorithm(&SHA256),
    ];
    if let Some(field) = attributes {
        parts.push(field);
    }
    parts.push(algorithm(&RSA_ENCRYPTION));
    parts.push(tlv(0x04, &[0xDE, 0xAD, 0xBE, 0xEF]));
    sequence(&parts)
}

fn signer_info() -> Vec<u8> {
    signer_info_with(Some(context(&[attribute()])))
}

fn signed_data_with(certificates: Option<Vec<u8>>, signers: Vec<u8>) -> Vec<u8> {
    let mut parts = vec![
        tlv(0x02, &[0x01]),
        set(&[algorithm(&SHA256)]),
        sequence(&[oid(&DATA)]),
    ];
    if let Some(field) = certificates {
        parts.push(field);
    }
    parts.push(signers);
    sequence(&parts)
}

fn signed_data() -> Vec<u8> {
    signed_data_with(Some(context(&[certificate()])), set(&[signer_info()]))
}

fn envelope_of(body: Vec<u8>) -> Vec<u8> {
    sequence(&[oid(&SIGNED_DATA), context(&[body])])
}

fn envelope() -> Vec<u8> {
    envelope_of(signed_data())
}

fn loosen(value: &[u8]) -> Vec<u8> {
    assert!(value[1] == 0x81 || value[1] == 0x82);
    let mut out = vec![value[0], value[1] + 1, 0x00];
    out.extend_from_slice(&value[2..]);
    out
}

fn position(haystack: &[u8], needle: &[u8]) -> Vec<usize> {
    (0..=haystack.len() - needle.len())
        .filter(|&i| &haystack[i..i + needle.len()] == needle)
        .collect()
}

#[test]
fn end_to_end_minimal_signed_data() {
    let bytes = envelope();
    let pkcs7 = Pkcs7::decode(&bytes, Mode::Der).unwrap();
    assert_eq!(pkcs7.content_type.to_string(), "1.2.840.113549.1.7.2");
    assert_eq!(pkcs7.content_bytes, signed_data());
    let data = &pkcs7.content;
    assert_eq!(data.version, 1);
    assert_eq!(data.digest_algorithms.len(), 1);
    assert_eq!(data.digest_algorithms[0].algorithm.to_string(), "2.16.840.1.101.3.4.2.1");
    assert_eq!(data.digest_algorithms[0].parameters, Some(vec![0x05, 0x00]));
    assert_eq!(data.content_info.content_type.to_string(), "1.2.840.113549.1.7.1");
    assert_eq!(data.content_info.content, None);
    assert!(data.crls.is_empty());
    assert_eq!(data.certs.len(), 1);
    let cert = &data.certs[0];
    assert_eq!(cert.signature_algorithm.algorithm.to_string(), "1.2.840.113549.1.1.11");
    assert_eq!(cert.signature_value, signature_value());
    let tbs = &cert.tbs_certificate;
    assert_eq!(tbs.version, Some(2));
    assert_eq!(tbs.serial_number, "0123ab");
    assert_eq!(tbs.signature_algorithm.algorithm.to_string(), "1.2.840.113549.1.1.11");
    assert_eq!(tbs.issuer, name_content());
    assert_eq!(tbs.subject, name_content());
    assert_eq!(tbs.validity.not_before, 1735689600);
    assert_eq!(tbs.validity.not_after, 946684799);
    assert_eq!(tbs.tbs_bytes, tbs_certificate());
    assert_eq!(
        tbs.subject_public_key_info.algorithm.algorithm.to_string(),
        "1.2.840.113549.1.1.1"
    );
    assert_eq!(tbs.subject_public_key_info.subject_public_key, modulus());
    assert_eq!(data.signer_infos.len(), 1);
    let signer = &data.signer_infos[0];
    assert_eq!(signer.version, 1);
    assert_eq!(signer.signer_identifier.issuer, name_content());
    assert_eq!(signer.signer_identifier.serial_number, vec![0x01, 0x23, 0xAB]);
    assert_eq!(signer.digest_algorithm.algorithm.to_string(), "2.16.840.1.101.3.4.2.1");
    assert_eq!(signer.signature_algorithm.algorithm.to_string(), "1.2.840.113549.1.1.1");
    assert_eq!(signer.signature, vec![0xDE, 0xAD, 0xBE, 0xEF]);
    let attributes = signer.auth_attributes.as_ref().unwrap();
    assert_eq!(attributes.len(), 1);
    assert_eq!(attributes[0].oid.to_string(), "1.2.840.113549.1.9.3");
    assert_eq!(attributes[0].value, oid(&DATA));
    assert_eq!(signer.auth_bytes, set(&[attribute()]));
    let again = AuthenticatedAttributes::decode(&signer.auth_bytes).unwrap();
    assert_eq!(&again.attributes, attributes);
}

#[test]
fn decoding_twice_gives_the_same_tree() {
    let bytes = envelope();
    assert_eq!(Pkcs7::decode(&bytes, Mode::Der), Pkcs7::decode(&bytes.clone(), Mode::Der));
    assert_eq!(Pkcs7::decode(&bytes, Mode::Der), Pkcs7::decode(&bytes, Mode::Ber));
}

#[test]
fn bytes_behind_the_envelope_are_not_read() {
    let mut bytes = envelope();
    let expected = Pkcs7::decode(&bytes, Mode::Der).unwrap();
    bytes.extend_from_slice(&[0xFF, 0x00, 0x12]);
    assert_eq!(Pkcs7::decode(&bytes, Mode::Der), Ok(expected));
}

#[test]
fn every_truncation_is_an_error() {
    let bytes = envelope();
    for cut in 0..bytes.len() {
        let result = Pkcs7::decode(&bytes[..cut], Mode::Der);
        let expected = if cut == 0 { ErrorKind::MissingValue } else { ErrorKind::Malformed };
        assert_eq!(
            result,
            Err(DecodeError { kind: expected, field: Field::Envelope, offset: 0 }),
            "cut at {}",
            cut
        );
    }
}

#[test]
fn captured_fields_are_slices_of_the_input() {
    let bytes = envelope();
    let pkcs7 = Pkcs7::decode(&bytes, Mode::Der).unwrap();
    let cert = &pkcs7.content.certs[0];
    let signer = &pkcs7.content.signer_infos[0];
    let tbs_at = position(&bytes, &tbs_certificate());
    assert_eq!(tbs_at.len(), 1);
    let tbs_start = tbs_at[0];
    let tbs = &cert.tbs_certificate;
    assert_eq!(&bytes[tbs_start..tbs_start + tbs.tbs_bytes.len()], &tbs.tbs_bytes[..]);
    let names = position(&bytes, &name_content());
    assert_eq!(names.len(), 3);
    assert_eq!(&bytes[names[0]..names[0] + tbs.issuer.len()], &tbs.issuer[..]);
    assert_eq!(&bytes[names[1]..names[1] + tbs.subject.len()], &tbs.subject[..]);
    assert_eq!(
        &bytes[names[2]..names[2] + signer.signer_identifier.issuer.len()],
        &signer.signer_identifier.issuer[..]
    );
    let serials = position(&bytes, &[0x01, 0x23, 0xAB]);
    assert_eq!(serials.len(), 2);
    assert_eq!(
        &bytes[serials[1]..serials[1] + 3],
        &signer.signer_identifier.serial_number[..]
    );
    let signature = position(&bytes, &signature_value());
    assert_eq!(signature.len(), 1);
    assert_eq!(
        &bytes[signature[0]..signature[0] + cert.signature_value.len()],
        &cert.signature_value[..]
    );
    let digest = position(&bytes, &[0xDE, 0xAD, 0xBE, 0xEF]);
    assert_eq!(digest.len(), 1);
    assert_eq!(&bytes[digest[0]..digest[0] + 4], &signer.signature[..]);
}

#[test]
fn garbage_behind_a_certificate_is_reported() {
    let garbage = [0xFFu8; 8];
    let held = join(&[certificate(), garbage.to_vec()]);
    let cons = Cursor::new(&held, Mode::Ber);
    let found = Certificate::take_all(&cons);
    assert_eq!(found.certs.len(), 1);
    assert_eq!(
        found.certs[0].signature_algorithm.algorithm.to_string(),
        "1.2.840.113549.1.1.11"
    );
    assert_eq!(
        found.error,
        Some(DecodeError {
            kind: ErrorKind::TrailingGarbage,
            field: Field::Certificates,
            offset: certificate().len(),
        })
    );
    let body = signed_data_with(Some(tlv(0xA0, &held)), set(&[signer_info()]));
    let start = position(&body, &certificate())[0] + certificate().len();
    let mut cons = Cursor::new(&body, Mode::Ber);
    assert_eq!(
        SignedData::take_from(&mut cons),
        Err(DecodeError {
            kind: ErrorKind::TrailingGarbage,
            field: Field::Certificates,
            offset: start,
        })
    );
    let bytes = envelope_of(body);
    let start = position(&bytes, &certificate())[0] + certificate().len();
    assert_eq!(
        Pkcs7::decode(&bytes, Mode::Der),
        Err(DecodeError {
            kind: ErrorKind::TrailingGarbage,
            field: Field::Certificates,
            offset: start,
        })
    );
}

#[test]
fn a_defect_deep_inside_is_reported_where_it_stands() {
    let bytes = envelope();
    let at = position(&bytes, b"991231235959Z")[0];
    let mut broken = bytes.clone();
    broken[at - 1] = 0x7F;
    assert_eq!(
        Pkcs7::decode(&broken, Mode::Der),
        Err(DecodeError { kind: ErrorKind::Malformed, field: Field::NotAfter, offset: at - 2 })
    );
    let mut wrong = bytes.clone();
    wrong[at + 12] = b'X';
    assert_eq!(
        Pkcs7::decode(&wrong, Mode::Der),
        Err(DecodeError { kind: ErrorKind::InvalidTime, field: Field::NotAfter, offset: at - 2 })
    );
    let mut unsigned = bytes.clone();
    let signature = position(&bytes, &[0x04, 0x04, 0xDE, 0xAD, 0xBE, 0xEF])[0];
    unsigned[signature] = 0x24;
    assert_eq!(
        Pkcs7::decode(&unsigned, Mode::Der),
        Err(DecodeError {
            kind: ErrorKind::UnexpectedTag,
            field: Field::Signature,
            offset: signature,
        })
    );
}

#[test]
fn authenticated_attributes_are_taken_with_either_wire_tag() {
    for wire in [0xA0u8, 0xA1] {
        let field = tlv(wire, &attribute());
        let signer = signer_info_with(Some(field));
        let mut cons = Cursor::new(&signer, Mode::Der);
        let info = SignerInfo::take_from(&mut cons).unwrap();
        assert_eq!(cons.pos, signer.len());
        assert_eq!(info.auth_bytes[0], 0x31);
        assert_eq!(info.auth_bytes, set(&[attribute()]));
        assert_eq!(info.auth_bytes.len(), 2 + attribute().len());
        assert_eq!(info.auth_bytes[1] as usize, attribute().len());
        let attributes = info.auth_attributes.as_ref().unwrap();
        assert_eq!(attributes.len(), 1);
        assert_eq!(attributes[0].oid.to_string(), "1.2.840.113549.1.9.3");
        assert_eq!(info.signature, vec![0xDE, 0xAD, 0xBE, 0xEF]);
        let again = AuthenticatedAttributes::decode(&info.auth_bytes).unwrap();
        assert_eq!(&again.attributes, attributes);
        let body = signed_data_with(None, set(&[signer]));
        let pkcs7 = Pkcs7::decode(&envelope_of(body), Mode::Der).unwrap();
        assert_eq!(pkcs7.content.signer_infos[0], info);
    }
    let many: Vec<u8> = (0..20).flat_map(|_| attribute()).collect();
    assert!(many.len() > 255);
    for wire in [0xA0u8, 0xA1] {
        let signer = signer_info_with(Some(tlv(wire, &many)));
        let mut cons = Cursor::new(&signer, Mode::Der);
        let info = SignerInfo::take_from(&mut cons).unwrap();
        assert_eq!(info.auth_bytes[..4], [0x31, 0x82, (many.len() >> 8) as u8, many.len() as u8]);
        assert_eq!(info.auth_bytes[4..], many[..]);
        assert_eq!(info.auth_attributes.unwrap().len(), 20);
    }
    for wire in [0x80u8, 0x81] {
        let signer = signer_info_with(Some(tlv(wire, &attribute())));
        let at = position(&signer, &tlv(wire, &attribute()))[0];
        let mut cons = Cursor::new(&signer, Mode::Der);
        assert_eq!(
            SignerInfo::take_from(&mut cons),
            Err(DecodeError {
                kind: ErrorKind::UnexpectedTag,
                field: Field::AuthenticatedAttributes,
                offset: at,
            })
        );
    }
    let signer = signer_info_with(Some(tlv(0xA2, &attribute())));
    let at = position(&signer, &tlv(0xA2, &attribute()))[0];
    let mut cons = Cursor::new(&signer, Mode::Der);
    assert_eq!(
        SignerInfo::take_from(&mut cons),
        Err(DecodeError { kind: ErrorKind::UnexpectedTag, field: Field::Algorithm, offset: at })
    );
}

#[test]
fn framed_garbage_behind_a_certificate_is_reported_where_it_starts() {
    let garbage = tlv(0x04, &[1, 2, 3, 4, 5, 6]);
    assert_eq!(garbage.len(), 8);
    let held = join(&[certificate(), garbage]);
    let body = signed_data_with(Some(tlv(0xA0, &held)), set(&[signer_info()]));
    let start = position(&body, &certificate())[0] + certificate().len();
    let mut cons = Cursor::new(&body, Mode::Ber);
    assert_eq!(
        SignedData::take_from(&mut cons),
        Err(DecodeError {
            kind: ErrorKind::TrailingGarbage,
            field: Field::Certificates,
            offset: start,
        })
    );
    let bytes = envelope_of(body);
    let start = position(&bytes, &certificate())[0] + certificate().len();
    assert_eq!(
        Pkcs7::decode(&bytes, Mode::Der),
        Err(DecodeError {
            kind: ErrorKind::TrailingGarbage,
            field: Field::Certificates,
            offset: start,
        })
    );
}

#[test]
fn certificates_and_attributes_may_be_absent() {
    let body = signed_data_with(None, set(&[signer_info_with(None)]));
    let pkcs7 = Pkcs7::decode(&envelope_of(body), Mode::Der).unwrap();
    assert!(pkcs7.content.certs.is_empty());
    let signer = &pkcs7.content.signer_infos[0];
    assert_eq!(signer.auth_attributes, None);
    assert!(signer.auth_bytes.is_empty());
}

#[test]
fn sets_may_be_empty_and_keep_their_order() {
    let two = signed_data_with(
        Some(context(&[certificate(), certificate()])),
        set(&[signer_info(), signer_info_with(None)]),
    );
    let pkcs7 = Pkcs7::decode(&envelope_of(two), Mode::Der).unwrap();
    assert_eq!(pkcs7.content.certs.len(), 2);
    assert_eq!(pkcs7.content.signer_infos.len(), 2);
    assert!(pkcs7.content.signer_infos[0].auth_attributes.is_some());
    assert!(pkcs7.content.signer_infos[1].auth_attributes.is_none());
    let none = signed_data_with(Some(context(&[])), set(&[]));
    let pkcs7 = Pkcs7::decode(&envelope_of(none), Mode::Der).unwrap();
    assert!(pkcs7.content.certs.is_empty());
    assert!(pkcs7.content.signer_infos.is_empty());
}

#[test]
fn a_certificate_with_a_long_form_length_decodes_in_a_strict_envelope() {
    let loose = loosen(&certificate());
    let body = signed_data_with(Some(context(&[loose.clone()])), set(&[signer_info()]));
    let pkcs7 = Pkcs7::decode(&envelope_of(body), Mode::Der).unwrap();
    assert_eq!(pkcs7.content.certs.len(), 1);
    assert_eq!(pkcs7.content.certs[0].signature_value, signature_value());
    let mut cons = Cursor::new(&loose, Mode::Der);
    assert_eq!(
        Certificate::take_from(&mut cons).unwrap_err(),
        DecodeError { kind: ErrorKind::Malformed, field: Field::Certificate, offset: 0 }
    );
}

#[test]
fn a_strict_envelope_needs_a_shortest_length() {
    let loose = loosen(&envelope());
    assert!(Pkcs7::decode(&loose, Mode::Ber).is_ok());
    assert_eq!(
        Pkcs7::decode(&loose, Mode::Der),
        Err(DecodeError { kind: ErrorKind::Malformed, field: Field::Envelope, offset: 0 })
    );
}

#[test]
fn set_encoding_starts_with_the_set_tag_whatever_the_wire_tag() {
    let content = join(&[attribute()]);
    for wire in [0xA0u8, 0xA1] {
        let field = tlv(wire, &content);
        let header = field.len() - content.len();
        let retagged = encode_set(&field[header..]);
        assert_eq!(retagged[0], 0x31);
        assert_eq!(&retagged[1..header], &field[1..header]);
        assert_eq!(&retagged[header..], &content[..]);
    }
}

#[test]
fn set_encoding_uses_the_shortest_length() {
    assert_eq!(encode_set(&[]), vec![0x31, 0x00]);
    assert_eq!(encode_set(&[7; 127])[..2], [0x31, 0x7F]);
    assert_eq!(encode_set(&[7; 128])[..3], [0x31, 0x81, 0x80]);
    assert_eq!(encode_set(&[7; 255])[..3], [0x31, 0x81, 0xFF]);
    assert_eq!(encode_set(&[7; 256])[..4], [0x31, 0x82, 0x01, 0x00]);
    assert_eq!(encode_set(&[7; 65535])[..4], [0x31, 0x82, 0xFF, 0xFF]);
    let long = encode_set(&vec![7; 65536]);
    assert_eq!(long[..5], [0x31, 0x83, 0x01, 0x00, 0x00]);
    assert_eq!(long.len(), 5 + 65536);
    assert!(long[5..].iter().all(|&b| b == 7));
}

#[test]
fn set_encoding_of_a_loose_field_is_strict() {
    let content = join(&[attribute()]);
    let mut field = vec![0xA0, 0x82, 0x00, content.len() as u8];
    field.extend_from_slice(&content);
    let body = signed_data_with(None, set(&[signer_info_with(Some(field))]));
    let pkcs7 = Pkcs7::decode(&envelope_of(body), Mode::Der).unwrap();
    let signer = &pkcs7.content.signer_infos[0];
    assert_eq!(signer.auth_bytes, set(&[attribute()]));
    assert_eq!(signer.auth_attributes.as_ref().unwrap().len(), 1);
}
