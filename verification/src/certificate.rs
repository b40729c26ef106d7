//! X.509 certificates.

use crate::algorithm::{AlgorithmIdentifier, AlgorithmIdentifierView};
use crate::ber::{TAG_CTX_0, TAG_SEQUENCE};
use crate::cursor::{lemma_header_extent, Cursor, CursorView};
use crate::error::{DecodeError, ErrorKind, Field};
use crate::model::{lemma_views_push, views};
use crate::primitive::{spec_take_bit_string, spec_take_u8, take_bit_string, take_u8};
use crate::public_key::{SubjectPublicKeyInfo, SubjectPublicKeyInfoView};
use crate::text::{
    byte_list, hex_encode, hex_lower, optional_number, push_byte_list, push_optional_number,
    push_quoted, quoted,
};
use crate::validity::Validity;
use vstd::prelude::*;
use vstd::string::StringExecFns;

verus! {

/// The signed body of a certificate.
///
/// `version` is absent where the wire has none. `serial_number` is the
/// content of the serial number in hexadecimal. `issuer` and `subject` are
/// the content octets of their names, and `tbs_bytes` are all octets of the
/// body, header included, as the signature covers them.
#[derive(Clone, Debug, PartialEq, Eq)]
pub struct TbsCertificate {
    pub version: Option<u8>,
    pub serial_number: String,
    pub signature_algorithm: AlgorithmIdentifier,
    pub issuer: Vec<u8>,
    pub validity: Validity,
    pub subject: Vec<u8>,
    pub subject_public_key_info: SubjectPublicKeyInfo,
    pub tbs_bytes: Vec<u8>,
}

/// The mathematical value of a [`TbsCertificate`].
pub struct TbsCertificateView {
    pub version: Option<u8>,
    pub serial_number: Seq<char>,
    pub signature_algorithm: AlgorithmIdentifierView,
    pub issuer: Seq<u8>,
    pub validity: Validity,
    pub subject: Seq<u8>,
    pub subject_public_key_info: SubjectPublicKeyInfoView,
    pub tbs_bytes: Seq<u8>,
}

impl View for TbsCertificate {
    type V = TbsCertificateView;

    open spec fn view(&self) -> TbsCertificateView {
        TbsCertificateView {
            version: self.version,
            serial_number: self.serial_number@,
            signature_algorithm: self.signature_algorithm@,
            issuer: self.issuer@,
            validity: self.validity,
            subject: self.subject@,
            subject_public_key_info: self.subject_public_key_info@,
            tbs_bytes: self.tbs_bytes@,
        }
    }
}

impl TbsCertificateView {
    /// The text of this value.
    pub open spec fn to_string(self) -> Seq<char> {
        "TbsCertificate {\n    version: "@ + optional_number(self.version)
            + ",\n    serial_number: "@ + quoted(self.serial_number)
            + ",\n    signature_algorithm: "@ + self.signature_algorithm.to_string()
            + ",\n    issuer: "@ + byte_list(self.issuer) + ",\n    validity: "@
            + self.validity.spec_to_string() + ",\n    subject: "@ + byte_list(self.subject)
            + ",\n    subject_public_key_info: "@ + self.subject_public_key_info.to_string()
            + "\n  }"@
    }
}

/// What [`take_version`] returns on a cursor.
pub open spec fn spec_take_version(c: CursorView) -> Result<(Option<u8>, CursorView), DecodeError> {
    match c.expect_opt(TAG_CTX_0, true, Field::Version) {
        Err(e) => Err(e),
        Ok(None) => Ok((None, c)),
        Ok(Some(h)) => match spec_take_u8(c.inner(h), Field::Version) {
            Err(e) => Err(e),
            Ok((n, c1)) => match c1.finish(Field::Version) {
                Err(e) => Err(e),
                Ok(_) => Ok((Some(n), c.after(h))),
            },
        },
    }
}

/// Takes the version of a certificate where the cursor stands at one: a
/// constructed `[0]` that holds one INTEGER. Where another tag stands at the
/// cursor, or nothing, the version is absent and the cursor does not move.
/// On an error the cursor stays where it was.
pub fn take_version(cons: &mut Cursor) -> (r: Result<Option<u8>, DecodeError>)
    requires
        old(cons)@.wf(),
    ensures
        final(cons)@.wf(),
        match spec_take_version(old(cons)@) {
            Ok((v, after)) => r == Ok::<Option<u8>, DecodeError>(v) && final(cons)@ == after,
            Err(e) => r == Err::<Option<u8>, DecodeError>(e) && final(cons)@ == old(cons)@,
        },
{
    match cons.expect_opt(TAG_CTX_0, true, Field::Version)? {
        None => Ok(None),
        Some(e) => {
            let mut outer = *cons;
            let mut inner = outer.enter(&e);
            let n = take_u8(&mut inner, Field::Version)?;
            inner.finish(Field::Version)?;
            *cons = outer;
            Ok(Some(n))
        },
    }
}

/// What [`take_name`] returns on a cursor: the content octets of the
/// SEQUENCE at the cursor and the cursor behind it.
pub open spec fn spec_take_name(c: CursorView, field: Field) -> Result<
    (Seq<u8>, CursorView),
    DecodeError,
> {
    match c.expect(TAG_SEQUENCE, true, field) {
        Err(e) => Err(e),
        Ok(h) => Ok((c.content(h), c.after(h))),
    }
}

/// Takes a Name from the cursor, a SEQUENCE, and returns its content as it
/// stands. On an error the cursor stays where it was.
pub fn take_name(cons: &mut Cursor, field: Field) -> (r: Result<Vec<u8>, DecodeError>)
    requires
        old(cons)@.wf(),
    ensures
        final(cons)@.wf(),
        match spec_take_name(old(cons)@, field) {
            Ok((name, after)) => r matches Ok(v) && v@ == name && final(cons)@ == after,
            Err(e) => r == Err::<Vec<u8>, DecodeError>(e) && final(cons)@ == old(cons)@,
        },
{
    let e = cons.expect(TAG_SEQUENCE, true, field)?;
    let name = cons.content(&e);
    cons.skip(&e);
    Ok(name)
}

impl TbsCertificate {
    /// What [`TbsCertificate::take_from`] returns on a cursor.
    #[verifier::opaque]
    pub open spec fn spec_take_from(c: CursorView) -> Result<
        (TbsCertificateView, CursorView),
        DecodeError,
    > {
        match c.expect(TAG_SEQUENCE, true, Field::TbsCertificate) {
            Err(e) => Err(e),
            Ok(h) => match spec_take_version(c.inner(h)) {
                Err(e) => Err(e),
                Ok((version, c1)) => match c1.expect_primitive(Field::SerialNumber) {
                    Err(e) => Err(e),
                    Ok(serial) => match AlgorithmIdentifier::spec_take_from(c1.after(serial)) {
                        Err(e) => Err(e),
                        Ok((signature_algorithm, c2)) => match spec_take_name(c2, Field::Issuer) {
                            Err(e) => Err(e),
                            Ok((issuer, c3)) => match Validity::spec_take_from(c3) {
                                Err(e) => Err(e),
                                Ok((validity, c4)) => match spec_take_name(c4, Field::Subject) {
                                    Err(e) => Err(e),
                                    Ok((subject, c5)) => match SubjectPublicKeyInfo::spec_take_from(
                                        c5,
                                    ) {
                                        Err(e) => Err(e),
                                        Ok((subject_public_key_info, _)) => Ok(
                                            (
                                                TbsCertificateView {
                                                    version,
                                                    serial_number: hex_lower(c1.content(serial)),
                                                    signature_algorithm,
                                                    issuer,
                                                    validity,
                                                    subject,
                                                    subject_public_key_info,
                                                    tbs_bytes: c.encoded(h),
                                                },
                                                c.after(h),
                                            ),
                                        ),
                                    },
                                },
                            },
                        },
                    },
                },
            },
        }
    }

    /// Takes a TBSCertificate from the cursor: a SEQUENCE of an optional
    /// version, the serial number, the signature algorithm, the issuer, the
    /// validity, the subject and the public key. What follows the public key
    /// in the SEQUENCE is passed over. On an error the cursor stays where it
    /// was.
    pub fn take_from(cons: &mut Cursor) -> (r: Result<TbsCertificate, DecodeError>)
        requires
            old(cons)@.wf(),
        ensures
            final(cons)@.wf(),
            match TbsCertificate::spec_take_from(old(cons)@) {
                Ok((v, after)) => r matches Ok(t) && t@ == v && final(cons)@ == after,
                Err(e) => r == Err::<TbsCertificate, DecodeError>(e) && final(cons)@ == old(cons)@,
            },
    {
        reveal(TbsCertificate::spec_take_from);
        let e = cons.expect(TAG_SEQUENCE, true, Field::TbsCertificate)?;
        let tbs_bytes = cons.encoded(&e);
        let mut outer = *cons;
        let mut inner = outer.enter(&e);
        let version = take_version(&mut inner)?;
        let serial = inner.expect_primitive(Field::SerialNumber)?;
        let serial_number = hex_encode(
            vstd::slice::slice_subrange(inner.data, serial.content, serial.end),
        );
        inner.skip(&serial);
        let signature_algorithm = AlgorithmIdentifier::take_from(&mut inner)?;
        let issuer = take_name(&mut inner, Field::Issuer)?;
        let validity = Validity::take_from(&mut inner)?;
        let subject = take_name(&mut inner, Field::Subject)?;
        let subject_public_key_info = SubjectPublicKeyInfo::take_from(&mut inner)?;
        inner.skip_all();
        *cons = outer;
        Ok(
            TbsCertificate {
                version,
                serial_number,
                signature_algorithm,
                issuer,
                validity,
                subject,
                subject_public_key_info,
                tbs_bytes,
            },
        )
    }

    /// This value as text.
    pub fn to_string(&self) -> (s: String)
        ensures
            s@ == self@.to_string(),
    {
        let mut s = String::from_str("TbsCertificate {\n    version: ");
        push_optional_number(&mut s, self.version);
        s.append(",\n    serial_number: ");
        push_quoted(&mut s, self.serial_number.as_str());
        s.append(",\n    signature_algorithm: ");
        let algorithm = self.signature_algorithm.to_string();
        s.append(algorithm.as_str());
        s.append(",\n    issuer: ");
        push_byte_list(&mut s, self.issuer.as_slice());
        s.append(",\n    validity: ");
        let validity = self.validity.to_string();
        s.append(validity.as_str());
        s.append(",\n    subject: ");
        push_byte_list(&mut s, self.subject.as_slice());
        s.append(",\n    subject_public_key_info: ");
        let key = self.subject_public_key_info.to_string();
        s.append(key.as_str());
        s.append("\n  }");
        assert(s@ =~= self@.to_string());
        s
    }
}

/// A certificate: its signed body, the algorithm of the signature and the
/// octets of the signature.
#[derive(Clone, Debug, PartialEq, Eq)]
pub struct Certificate {
    pub tbs_certificate: TbsCertificate,
    pub signature_algorithm: AlgorithmIdentifier,
    pub signature_value: Vec<u8>,
}

/// The mathematical value of a [`Certificate`].
pub struct CertificateView {
    pub tbs_certificate: TbsCertificateView,
    pub signature_algorithm: AlgorithmIdentifierView,
    pub signature_value: Seq<u8>,
}

impl View for Certificate {
    type V = CertificateView;

    open spec fn view(&self) -> CertificateView {
        CertificateView {
            tbs_certificate: self.tbs_certificate@,
            signature_algorithm: self.signature_algorithm@,
            signature_value: self.signature_value@,
        }
    }
}

impl CertificateView {
    /// The text of this value.
    pub open spec fn to_string(self) -> Seq<char> {
        "Certificate {\n  tbs_certificate: "@ + self.tbs_certificate.to_string()
            + ",\n  signature_algorithm: "@ + self.signature_algorithm.to_string()
            + ",\n  signature_value: "@ + byte_list(self.signature_value) + "\n}"@
    }
}

/// The certificates that a cursor holds, and the error for what is left
/// where not all of it decodes.
#[derive(Clone, Debug, PartialEq, Eq)]
pub struct CertificateSet {
    pub certs: Vec<Certificate>,
    pub error: Option<DecodeError>,
}

impl Certificate {
    /// What [`Certificate::take_from`] returns on a cursor.
    #[verifier::opaque]
    pub open spec fn spec_take_from(c: CursorView) -> Result<
        (CertificateView, CursorView),
        DecodeError,
    > {
        match c.expect(TAG_SEQUENCE, true, Field::Certificate) {
            Err(e) => Err(e),
            Ok(h) => match TbsCertificate::spec_take_from(c.inner(h)) {
                Err(e) => Err(e),
                Ok((tbs_certificate, c1)) => match AlgorithmIdentifier::spec_take_from(c1) {
                    Err(e) => Err(e),
                    Ok((signature_algorithm, c2)) => match spec_take_bit_string(
                        c2,
                        Field::SignatureValue,
                    ) {
                        Err(e) => Err(e),
                        Ok((bits, c3)) => match c3.finish(Field::Certificate) {
                            Err(e) => Err(e),
                            Ok(_) => Ok(
                                (
                                    CertificateView {
                                        tbs_certificate,
                                        signature_algorithm,
                                        signature_value: bits.remaining(),
                                    },
                                    c.after(h),
                                ),
                            ),
                        },
                    },
                },
            },
        }
    }

    /// Takes a Certificate from the cursor: a SEQUENCE of the signed body,
    /// the signature algorithm and the signature, a BIT STRING without unused
    /// bits. On an error the cursor stays where it was.
    pub fn take_from(cons: &mut Cursor) -> (r: Result<Certificate, DecodeError>)
        requires
            old(cons)@.wf(),
        ensures
            final(cons)@.wf(),
            match Certificate::spec_take_from(old(cons)@) {
                Ok((v, after)) => r matches Ok(t) && t@ == v && final(cons)@ == after,
                Err(e) => r == Err::<Certificate, DecodeError>(e) && final(cons)@ == old(cons)@,
            },
    {
        reveal(Certificate::spec_take_from);
        let e = cons.expect(TAG_SEQUENCE, true, Field::Certificate)?;
        let mut outer = *cons;
        let mut inner = outer.enter(&e);
        let tbs_certificate = TbsCertificate::take_from(&mut inner)?;
        let signature_algorithm = AlgorithmIdentifier::take_from(&mut inner)?;
        let mut bits = take_bit_string(&mut inner, Field::SignatureValue)?;
        inner.finish(Field::Certificate)?;
        let signature_value = bits.capture_all();
        *cons = outer;
        Ok(Certificate { tbs_certificate, signature_algorithm, signature_value })
    }

    /// A certificate that is taken from a cursor is the value that is
    /// framed there, a SEQUENCE, and the cursor is then behind that value.
    pub proof fn lemma_take_from_frames(c: CursorView)
        ensures
            Certificate::spec_take_from(c) matches Ok((_, after)) ==> c.header() matches Some(h)
                && after == c.after(h) && !c.at_end() && c.tag() == TAG_SEQUENCE
                && c.constructed(),
    {
        reveal(Certificate::spec_take_from);
    }

    /// What [`Certificate::take_all`] returns on a cursor: the certificates
    /// that decode one after the other from the cursor on; then
    /// `TrailingGarbage` where no SEQUENCE is framed at an offset before the
    /// end, and the error of the element where one is framed and does not
    /// decode.
    pub open spec fn spec_take_all(c: CursorView) -> (Seq<CertificateView>, Option<DecodeError>)
        decreases c.end - c.pos,
    {
        if c.at_end() {
            (Seq::empty(), None)
        } else if c.expect(TAG_SEQUENCE, true, Field::Certificates) is Err {
            (Seq::empty(), Some(c.error(ErrorKind::TrailingGarbage, Field::Certificates)))
        } else {
            // Taking a value moves a cursor forward; the test on the
            // positions says so where the recursion is checked.
            match Certificate::spec_take_from(c) {
                Err(e) => (Seq::empty(), Some(e)),
                Ok((v, after)) => if c.pos < after.pos <= after.end == c.end {
                    let (rest, error) = Certificate::spec_take_all(after);
                    (seq![v] + rest, error)
                } else {
                    (seq![v], None)
                },
            }
        }
    }

    /// Takes certificates from the cursor until it is at its end or what is
    /// left does not decode as a certificate. The certificates that were
    /// taken are returned in either case.
    pub fn take_all(cons: &Cursor) -> (r: CertificateSet)
        requires
            cons@.wf(),
        ensures
            views(r.certs@) == Certificate::spec_take_all(cons@).0,
            r.error == Certificate::spec_take_all(cons@).1,
    {
        let mut certs: Vec<Certificate> = Vec::new();
        let mut cur = *cons;
        let mut error: Option<DecodeError> = None;
        assert(views(certs@) =~= Seq::<CertificateView>::empty());
        while error.is_none() && !cur.at_end()
            invariant
                cur@.wf(),
                error is None ==> Certificate::spec_take_all(cons@).0 == views(certs@)
                    + Certificate::spec_take_all(cur@).0,
                error is None ==> Certificate::spec_take_all(cons@).1 == Certificate::spec_take_all(
                    cur@,
                ).1,
                error is Some ==> Certificate::spec_take_all(cons@) == (views(certs@), error),
            decreases (if error is None { 1int } else { 0int }), cur.end - cur.pos,
        {
            let ghost before = cur@;
            let ghost taken = views(certs@);
            proof {
                Certificate::lemma_take_from_frames(before);
                lemma_header_extent(before);
            }
            match cur.expect(TAG_SEQUENCE, true, Field::Certificates) {
                Err(_) => {
                    error = Some(
                        DecodeError {
                            kind: ErrorKind::TrailingGarbage,
                            field: Field::Certificates,
                            offset: cur.pos,
                        },
                    );
                    assert(taken + Seq::<CertificateView>::empty() =~= taken);
                },
                Ok(_) => match Certificate::take_from(&mut cur) {
                    Ok(cert) => {
                        proof {
                            lemma_views_push(certs@, cert);
                            assert(taken + (seq![cert@] + Certificate::spec_take_all(cur@).0)
                                =~= taken.push(cert@) + Certificate::spec_take_all(cur@).0);
                        }
                        certs.push(cert);
                    },
                    Err(e) => {
                        error = Some(e);
                        assert(taken + Seq::<CertificateView>::empty() =~= taken);
                    },
                },
            }
        }
        proof {
            if error is None {
                assert(views(certs@) + Seq::<CertificateView>::empty() =~= views(certs@));
            }
        }
        CertificateSet { certs, error }
    }

    /// This value as text.
    pub fn to_string(&self) -> (s: String)
        ensures
            s@ == self@.to_string(),
    {
        let mut s = String::from_str("Certificate {\n  tbs_certificate: ");
        let tbs = self.tbs_certificate.to_string();
        s.append(tbs.as_str());
        s.append(",\n  signature_algorithm: ");
        let algorithm = self.signature_algorithm.to_string();
        s.append(algorithm.as_str());
        s.append(",\n  signature_value: ");
        push_byte_list(&mut s, self.signature_value.as_slice());
        s.append("\n}");
        assert(s@ =~= self@.to_string());
        s
    }
}

} // verus!
