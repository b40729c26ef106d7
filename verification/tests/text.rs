use pkcs7_decoder::algorithm::AlgorithmIdentifier;
use pkcs7_decoder::ber::{Frame, Mode};
use pkcs7_decoder::certificate::{Certificate, TbsCertificate};
use pkcs7_decoder::cursor::Cursor;
use pkcs7_decoder::error::{DecodeError, ErrorKind, Field};
use pkcs7_decoder::oid::Oid;
use pkcs7_decoder::pkcs7::Pkcs7;
use pkcs7_decoder::public_key::SubjectPublicKeyInfo;
use pkcs7_decoder::signed_data::{ContentInfo, SignedData};
use pkcs7_decoder::signer::{SignerIdentifier, SignerInfo};
use pkcs7_decoder::text::{push_byte_list, push_decimal, push_signed_decimal};
use pkcs7_decoder::validity::Validity;

fn sha256() -> Oid {
    Oid::from_content(&[0x60, 0x86, 0x48, 0x01, 0x65, 0x03, 0x04, 0x02, 0x01]).unwrap()
}

fn algorithm(parameters: Option<Vec<u8>>) -> AlgorithmIdentifier {
    AlgorithmIdentifier { algorithm: sha256(), parameters }
}

fn tbs() -> TbsCertificate {
    TbsCertificate {
        version: Some(2),
        serial_number: String::from("0a1b"),
        signature_algorithm: algorithm(None),
        issuer: vec![1, 2],
        validity: Validity { not_before: 5, not_after: 6 },
        subject: vec![],
        subject_public_key_info: SubjectPublicKeyInfo {
            algorithm: algorithm(Some(vec![5, 0])),
            subject_public_key: vec![200, 0, 13],
        },
        tbs_bytes: vec![0x30, 0x00],
    }
}

fn signer(version: u8, signature: Vec<u8>) -> SignerInfo {
    SignerInfo {
        version,
        signer_identifier: SignerIdentifier { issuer: vec![], serial_number: vec![1] },
        digest_algorithm: algorithm(None),
        auth_attributes: None,
        auth_bytes: vec![],
        signature_algorithm: algorithm(None),
        signature,
    }
}

const ALGORITHM: &str =
    "AlgorithmIdentifier {\n    algorithm: 2.16.840.1.101.3.4.2.1,\n    parameters: None\n  }";

#[test]
fn numbers_in_decimal() {
    let mut s = String::from("n=");
    push_decimal(&mut s, 0);
    s.push(' ');
    push_decimal(&mut s, 10);
    s.push(' ');
    push_decimal(&mut s, u64::MAX);
    s.push(' ');
    push_signed_decimal(&mut s, -1);
    s.push(' ');
    push_signed_decimal(&mut s, i64::MAX);
    assert_eq!(s, format!("n=0 10 {} -1 {}", u64::MAX, i64::MAX));
}

#[test]
fn bytes_as_a_list() {
    for bytes in [vec![], vec![0u8], vec![255, 0, 100, 9]] {
        let mut s = String::new();
        push_byte_list(&mut s, &bytes);
        assert_eq!(s, format!("{:?}", bytes));
    }
}

#[test]
fn algorithm_identifier_to_string() {
    assert_eq!(algorithm(None).to_string(), ALGORITHM);
    assert_eq!(
        algorithm(Some(vec![5, 0])).to_string(),
        "AlgorithmIdentifier {\n    algorithm: 2.16.840.1.101.3.4.2.1,\n    parameters: Some([5, 0])\n  }"
    );
}

#[test]
fn subject_public_key_info_to_string() {
    let key = SubjectPublicKeyInfo { algorithm: algorithm(None), subject_public_key: vec![1, 2] };
    assert_eq!(
        key.to_string(),
        format!(
            "SubjectPublicKeyInfo {{\n    algorithm: {},\n    subject_public_key: [1, 2]\n  }}",
            ALGORITHM
        )
    );
}

#[test]
fn tbs_certificate_to_string() {
    let key = tbs().subject_public_key_info.to_string();
    assert_eq!(
        tbs().to_string(),
        format!(
            "TbsCertificate {{\n    version: Some(2),\n    serial_number: \"0a1b\",\n    \
             signature_algorithm: {},\n    issuer: [1, 2],\n    validity: {},\n    \
             subject: [],\n    subject_public_key_info: {}\n  }}",
            ALGORITHM,
            "Validity {\n    not_before: 5,\n    not_after: 6\n  }",
            key
        )
    );
    let mut without = tbs();
    without.version = None;
    assert!(without.to_string().starts_with("TbsCertificate {\n    version: None,\n"));
}

#[test]
fn certificate_to_string() {
    let certificate = Certificate {
        tbs_certificate: tbs(),
        signature_algorithm: algorithm(None),
        signature_value: vec![9],
    };
    assert_eq!(
        certificate.to_string(),
        format!(
            "Certificate {{\n  tbs_certificate: {},\n  signature_algorithm: {},\n  \
             signature_value: [9]\n}}",
            tbs().to_string(),
            ALGORITHM
        )
    );
}

#[test]
fn signer_info_to_string() {
    assert_eq!(
        signer(3, vec![1, 2, 3]).to_string(),
        format!(
            "SignerInfo {{\n  version: 3,\n  digest_algorithm: {},\n  \
             encrypted_digest: [1, 2, 3]\n}}",
            ALGORITHM
        )
    );
}

#[test]
fn content_info_to_string() {
    let info = ContentInfo { content_type: sha256(), content: Some(vec![7]) };
    assert_eq!(
        info.to_string(),
        "ContentInfo {\n  content_type: 2.16.840.1.101.3.4.2.1,\n  content: Some([7])\n}"
    );
}

#[test]
fn signed_data_and_envelope_to_string() {
    let data = SignedData {
        version: 1,
        digest_algorithms: vec![algorithm(None)],
        content_info: ContentInfo { content_type: sha256(), content: None },
        certs: vec![],
        crls: vec![],
        signer_infos: vec![signer(1, vec![]), signer(255, vec![4])],
    };
    let expected = format!(
        "SignedData {{\n  version: 1,\n  content_info: {},\n  signer_infos: {}{}\n}}",
        data.content_info.to_string(),
        signer(1, vec![]).to_string(),
        signer(255, vec![4]).to_string()
    );
    assert_eq!(data.to_string(), expected);
    let envelope = Pkcs7 { content_type: sha256(), content: data, content_bytes: vec![] };
    assert_eq!(
        envelope.to_string(),
        format!("Pkcs7 {{\n  content_type: 2.16.840.1.101.3.4.2.1,\n  content: {}\n}}", expected)
    );
}

#[test]
fn element_of_a_frame() {
    let bytes = [0x30, 0x03, 0x02, 0x01, 0x05, 0xFF];
    let cons = Cursor { data: &bytes, pos: 2, end: 5, mode: Mode::Der };
    let element =
        cons.element_of(Some(Frame { header_len: 2, content_len: 1 }), Field::Version).unwrap();
    assert_eq!(
        (element.tag, element.constructed, element.start, element.content, element.end),
        (0x02, false, 2, 4, 5)
    );
    let outer = Cursor::new(&bytes[..5], Mode::Der);
    let element =
        outer.element_of(Some(Frame { header_len: 2, content_len: 3 }), Field::Envelope).unwrap();
    assert_eq!(
        (element.tag, element.constructed, element.start, element.content, element.end),
        (0x10, true, 0, 2, 5)
    );
    assert_eq!(
        cons.element_of(None, Field::Version).unwrap_err(),
        DecodeError { kind: ErrorKind::Malformed, field: Field::Version, offset: 2 }
    );
    let done = Cursor { data: &bytes, pos: 5, end: 5, mode: Mode::Der };
    assert_eq!(
        done.element_of(None, Field::Version).unwrap_err(),
        DecodeError { kind: ErrorKind::MissingValue, field: Field::Version, offset: 5 }
    );
}
