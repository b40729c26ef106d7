//! The signed-data body of an envelope.

use crate::algorithm::{AlgorithmIdentifier, AlgorithmIdentifierView};
use crate::ber::{TAG_CTX_0, TAG_SEQUENCE, TAG_SET};
use crate::certificate::{Certificate, CertificateView};
use crate::cursor::{Cursor, CursorView};
use crate::error::{DecodeError, Field};
use crate::model::{optional_bytes, views};
use crate::oid::{oid_dotted, Oid};
use crate::primitive::{spec_take_u8, take_u8};
use crate::signer::{SignerInfo, SignerInfoView};
use crate::text::{decimal, optional_byte_list, push_decimal, push_optional_byte_list};
use vstd::prelude::*;
use vstd::string::StringExecFns;

verus! {

/// The content that an envelope encapsulates: its type and, where the wire
/// has it, the content octets of the value that holds it.
#[derive(Clone, Debug, PartialEq, Eq)]
pub struct ContentInfo {
    pub content_type: Oid,
    pub content: Option<Vec<u8>>,
}

/// The mathematical value of a [`ContentInfo`].
pub struct ContentInfoView {
    pub content_type: Seq<u8>,
    pub content: Option<Seq<u8>>,
}

impl View for ContentInfo {
    type V = ContentInfoView;

    open spec fn view(&self) -> ContentInfoView {
        ContentInfoView { content_type: self.content_type@, content: optional_bytes(self.content) }
    }
}

impl ContentInfoView {
    /// The text of this value.
    pub open spec fn to_string(self) -> Seq<char> {
        "ContentInfo {\n  content_type: "@ + oid_dotted(self.content_type) + ",\n  content: "@
            + optional_byte_list(self.content) + "\n}"@
    }
}

/// What [`take_content`] returns on a cursor.
pub open spec fn spec_take_content(c: CursorView) -> Result<
    (Option<Seq<u8>>, CursorView),
    DecodeError,
> {
    match c.expect_opt(TAG_CTX_0, true, Field::Content) {
        Err(e) => Err(e),
        Ok(None) => Ok((None, c)),
        Ok(Some(h)) => match c.inner(h).expect_primitive(Field::Content) {
            Err(e) => Err(e),
            Ok(p) => match c.inner(h).after(p).finish(Field::Content) {
                Err(e) => Err(e),
                Ok(_) => Ok((Some(c.inner(h).content(p)), c.after(h))),
            },
        },
    }
}

/// Takes the encapsulated content where the cursor stands at it: a
/// constructed `[0]` that holds one primitive value, whose content is
/// returned. Where another tag stands at the cursor, or nothing, the content
/// is absent and the cursor does not move. On an error the cursor stays
/// where it was.
pub fn take_content(cons: &mut Cursor) -> (r: Result<Option<Vec<u8>>, DecodeError>)
    requires
        old(cons)@.wf(),
    ensures
        final(cons)@.wf(),
        match spec_take_content(old(cons)@) {
            Ok((content, after)) => r matches Ok(v) && optional_bytes(v) == content && final(cons)@
                == after,
            Err(e) => r == Err::<Option<Vec<u8>>, DecodeError>(e) && final(cons)@ == old(cons)@,
        },
{
    match cons.expect_opt(TAG_CTX_0, true, Field::Content)? {
        None => Ok(None),
        Some(e) => {
            let mut outer = *cons;
            let mut inner = outer.enter(&e);
            let p = inner.expect_primitive(Field::Content)?;
            let content = inner.content(&p);
            inner.skip(&p);
            inner.finish(Field::Content)?;
            *cons = outer;
            Ok(Some(content))
        },
    }
}

impl ContentInfo {
    /// What [`ContentInfo::take_from`] returns on a cursor.
    pub open spec fn spec_take_from(c: CursorView) -> Result<
        (ContentInfoView, CursorView),
        DecodeError,
    > {
        match c.expect(TAG_SEQUENCE, true, Field::ContentInfo) {
            Err(e) => Err(e),
            Ok(h) => match Oid::spec_take_from(c.inner(h), Field::ContentType) {
                Err(e) => Err(e),
                Ok((content_type, c1)) => match spec_take_content(c1) {
                    Err(e) => Err(e),
                    Ok((content, c2)) => match c2.finish(Field::ContentInfo) {
                        Err(e) => Err(e),
                        Ok(_) => Ok((ContentInfoView { content_type, content }, c.after(h))),
                    },
                },
            },
        }
    }

    /// Takes a ContentInfo from the cursor: a SEQUENCE of the content type
    /// and the optional content. On an error the cursor stays where it was.
    pub fn take_from(cons: &mut Cursor) -> (r: Result<ContentInfo, DecodeError>)
        requires
            old(cons)@.wf(),
        ensures
            final(cons)@.wf(),
            match ContentInfo::spec_take_from(old(cons)@) {
                Ok((v, after)) => r matches Ok(s) && s@ == v && final(cons)@ == after,
                Err(e) => r == Err::<ContentInfo, DecodeError>(e) && final(cons)@ == old(cons)@,
            },
    {
        let e = cons.expect(TAG_SEQUENCE, true, Field::ContentInfo)?;
        let mut outer = *cons;
        let mut inner = outer.enter(&e);
        let content_type = Oid::take_from(&mut inner, Field::ContentType)?;
        let content = take_content(&mut inner)?;
        inner.finish(Field::ContentInfo)?;
        *cons = outer;
        Ok(ContentInfo { content_type, content })
    }

    /// This value as text: the content type in dotted decimal notation and
    /// the content as a list of bytes.
    pub fn to_string(&self) -> (s: String)
        ensures
            s@ == self@.to_string(),
    {
        let mut s = String::from_str("ContentInfo {\n  content_type: ");
        let content_type = self.content_type.to_string();
        s.append(content_type.as_str());
        s.append(",\n  content: ");
        push_optional_byte_list(&mut s, &self.content);
        s.append("\n}");
        assert(s@ =~= self@.to_string());
        s
    }
}

/// The signed-data body: the digest algorithms, the encapsulated content,
/// the certificates and the signer infos, each list in its order on the
/// wire. `certs` is empty where the wire has no certificates. `crls` is
/// always empty: revocation lists are not decoded.
#[derive(Clone, Debug, PartialEq, Eq)]
pub struct SignedData {
    pub version: u8,
    pub digest_algorithms: Vec<AlgorithmIdentifier>,
    pub content_info: ContentInfo,
    pub certs: Vec<Certificate>,
    pub crls: Vec<u8>,
    pub signer_infos: Vec<SignerInfo>,
}

/// The mathematical value of a [`SignedData`].
pub struct SignedDataView {
    pub version: u8,
    pub digest_algorithms: Seq<AlgorithmIdentifierView>,
    pub content_info: ContentInfoView,
    pub certs: Seq<CertificateView>,
    pub crls: Seq<u8>,
    pub signer_infos: Seq<SignerInfoView>,
}

impl View for SignedData {
    type V = SignedDataView;

    open spec fn view(&self) -> SignedDataView {
        SignedDataView {
            version: self.version,
            digest_algorithms: views(self.digest_algorithms@),
            content_info: self.content_info@,
            certs: views(self.certs@),
            crls: self.crls@,
            signer_infos: views(self.signer_infos@),
        }
    }
}

/// The texts of the signer infos from index `from` on, one after the other.
pub open spec fn signer_texts(signers: Seq<SignerInfoView>, from: int) -> Seq<char>
    decreases signers.len() - from,
{
    if from < 0 || from >= signers.len() {
        Seq::empty()
    } else {
        signers[from].to_string() + signer_texts(signers, from + 1)
    }
}

impl SignedDataView {
    /// The text of this value.
    pub open spec fn to_string(self) -> Seq<char> {
        "SignedData {\n  version: "@ + decimal(self.version as nat) + ",\n  content_info: "@
            + self.content_info.to_string() + ",\n  signer_infos: "@ + signer_texts(
            self.signer_infos,
            0,
        ) + "\n}"@
    }
}

/// What [`take_digest_algorithms`] returns on a cursor.
pub open spec fn spec_take_digest_algorithms(c: CursorView) -> Result<
    (Seq<AlgorithmIdentifierView>, CursorView),
    DecodeError,
> {
    match c.expect(TAG_SET, true, Field::DigestAlgorithms) {
        Err(e) => Err(e),
        Ok(h) => match AlgorithmIdentifier::spec_take_all(c.inner(h)) {
            (_, Some(e)) => Err(e),
            (algorithms, None) => Ok((algorithms, c.after(h))),
        },
    }
}

/// Takes the digest algorithms from the cursor: a SET that holds algorithm
/// identifiers and nothing else. On an error the cursor stays where it was.
pub fn take_digest_algorithms(cons: &mut Cursor) -> (r: Result<
    Vec<AlgorithmIdentifier>,
    DecodeError,
>)
    requires
        old(cons)@.wf(),
    ensures
        final(cons)@.wf(),
        match spec_take_digest_algorithms(old(cons)@) {
            Ok((algorithms, after)) => r matches Ok(v) && views(v@) == algorithms && final(cons)@
                == after,
            Err(e) => r == Err::<Vec<AlgorithmIdentifier>, DecodeError>(e) && final(cons)@ == old(
                cons,
            )@,
        },
{
    let e = cons.expect(TAG_SET, true, Field::DigestAlgorithms)?;
    let mut outer = *cons;
    let inner = outer.enter(&e);
    let found = AlgorithmIdentifier::take_all(&inner);
    match found.error {
        Some(error) => Err(error),
        None => {
            *cons = outer;
            Ok(found.algorithms)
        },
    }
}

/// What [`take_certificates`] returns on a cursor.
pub open spec fn spec_take_certificates(c: CursorView) -> Result<
    (Seq<CertificateView>, CursorView),
    DecodeError,
> {
    match c.expect_opt(TAG_CTX_0, true, Field::Certificates) {
        Err(e) => Err(e),
        Ok(None) => Ok((Seq::empty(), c)),
        Ok(Some(h)) => match Certificate::spec_take_all(c.inner(h)) {
            (_, Some(e)) => Err(e),
            (certs, None) => Ok((certs, c.after(h))),
        },
    }
}

/// Takes the certificates where the cursor stands at them: a constructed
/// `[0]` that holds certificates and nothing else. Where another tag stands
/// at the cursor, or nothing, there are no certificates and the cursor does
/// not move. On an error the cursor stays where it was.
pub fn take_certificates(cons: &mut Cursor) -> (r: Result<Vec<Certificate>, DecodeError>)
    requires
        old(cons)@.wf(),
    ensures
        final(cons)@.wf(),
        match spec_take_certificates(old(cons)@) {
            Ok((certs, after)) => r matches Ok(v) && views(v@) == certs && final(cons)@ == after,
            Err(e) => r == Err::<Vec<Certificate>, DecodeError>(e) && final(cons)@ == old(cons)@,
        },
{
    match cons.expect_opt(TAG_CTX_0, true, Field::Certificates)? {
        None => {
            let certs: Vec<Certificate> = Vec::new();
            assert(views(certs@) =~= Seq::<CertificateView>::empty());
            Ok(certs)
        },
        Some(e) => {
            let mut outer = *cons;
            let inner = outer.enter(&e);
            let found = Certificate::take_all(&inner);
            match found.error {
                Some(error) => Err(error),
                None => {
                    *cons = outer;
                    Ok(found.certs)
                },
            }
        },
    }
}

/// What [`take_signer_infos`] returns on a cursor.
pub open spec fn spec_take_signer_infos(c: CursorView) -> Result<
    (Seq<SignerInfoView>, CursorView),
    DecodeError,
> {
    match c.expect(TAG_SET, true, Field::SignerInfos) {
        Err(e) => Err(e),
        Ok(h) => match SignerInfo::spec_take_all(c.inner(h)) {
            (_, Some(e)) => Err(e),
            (signers, None) => Ok((signers, c.after(h))),
        },
    }
}

/// Takes the signer infos from the cursor: a SET that holds signer infos
/// and nothing else. On an error the cursor stays where it was.
pub fn take_signer_infos(cons: &mut Cursor) -> (r: Result<Vec<SignerInfo>, DecodeError>)
    requires
        old(cons)@.wf(),
    ensures
        final(cons)@.wf(),
        match spec_take_signer_infos(old(cons)@) {
            Ok((signers, after)) => r matches Ok(v) && views(v@) == signers && final(cons)@
                == after,
            Err(e) => r == Err::<Vec<SignerInfo>, DecodeError>(e) && final(cons)@ == old(cons)@,
        },
{
    let e = cons.expect(TAG_SET, true, Field::SignerInfos)?;
    let mut outer = *cons;
    let inner = outer.enter(&e);
    let found = SignerInfo::take_all(&inner);
    match found.error {
        Some(error) => Err(error),
        None => {
            *cons = outer;
            Ok(found.signer_infos)
        },
    }
}

impl SignedData {
    /// What [`SignedData::take_from`] returns on a cursor.
    #[verifier::opaque]
    pub open spec fn spec_take_from(c: CursorView) -> Result<
        (SignedDataView, CursorView),
        DecodeError,
    > {
        match c.expect(TAG_SEQUENCE, true, Field::SignedData) {
            Err(e) => Err(e),
            Ok(h) => match spec_take_u8(c.inner(h), Field::Version) {
                Err(e) => Err(e),
                Ok((version, c1)) => match spec_take_digest_algorithms(c1) {
                    Err(e) => Err(e),
                    Ok((digest_algorithms, c2)) => match ContentInfo::spec_take_from(c2) {
                        Err(e) => Err(e),
                        Ok((content_info, c3)) => match spec_take_certificates(c3) {
                            Err(e) => Err(e),
                            Ok((certs, c4)) => match spec_take_signer_infos(c4) {
                                Err(e) => Err(e),
                                Ok((signer_infos, c5)) => match c5.finish(Field::SignedData) {
                                    Err(e) => Err(e),
                                    Ok(_) => Ok(
                                        (
                                            SignedDataView {
                                                version,
                                                digest_algorithms,
                                                content_info,
                                                certs,
                                                crls: Seq::empty(),
                                                signer_infos,
                                            },
                                            c.after(h),
                                        ),
                                    ),
                                },
                            },
                        },
                    },
                },
            },
        }
    }

    /// Takes a SignedData from the cursor: a SEQUENCE of a version, the SET
    /// of digest algorithms, the content info, the certificates where there
    /// are any, and the SET of signer infos. On an error the cursor stays
    /// where it was.
    pub fn take_from(cons: &mut Cursor) -> (r: Result<SignedData, DecodeError>)
        requires
            old(cons)@.wf(),
        ensures
            final(cons)@.wf(),
            match SignedData::spec_take_from(old(cons)@) {
                Ok((v, after)) => r matches Ok(s) && s@ == v && final(cons)@ == after,
                Err(e) => r == Err::<SignedData, DecodeError>(e) && final(cons)@ == old(cons)@,
            },
    {
        reveal(SignedData::spec_take_from);
        let e = cons.expect(TAG_SEQUENCE, true, Field::SignedData)?;
        let mut outer = *cons;
        let mut inner = outer.enter(&e);
        let version = take_u8(&mut inner, Field::Version)?;
        let digest_algorithms = take_digest_algorithms(&mut inner)?;
        let content_info = ContentInfo::take_from(&mut inner)?;
        let certs = take_certificates(&mut inner)?;
        let signer_infos = take_signer_infos(&mut inner)?;
        inner.finish(Field::SignedData)?;
        *cons = outer;
        Ok(
            SignedData {
                version,
                digest_algorithms,
                content_info,
                certs,
                crls: Vec::new(),
                signer_infos,
            },
        )
    }

    /// This value as text: the version, the content info and the signer
    /// infos one after the other.
    pub fn to_string(&self) -> (s: String)
        ensures
            s@ == self@.to_string(),
    {
        let mut s = String::from_str("SignedData {\n  version: ");
        push_decimal(&mut s, self.version as u64);
        s.append(",\n  content_info: ");
        let content_info = self.content_info.to_string();
        s.append(content_info.as_str());
        s.append(",\n  signer_infos: ");
        let ghost start = s@;
        let ghost signers = views(self.signer_infos@);
        let mut i: usize = 0;
        while i < self.signer_infos.len()
            invariant
                0 <= i <= self.signer_infos.len(),
                signers == views(self.signer_infos@),
                s@ + signer_texts(signers, i as int) == start + signer_texts(signers, 0),
            decreases self.signer_infos.len() - i,
        {
            let ghost before = s@;
            let text = self.signer_infos[i].to_string();
            s.append(text.as_str());
            assert(signers[i as int] == self.signer_infos@[i as int]@);
            assert(s@ + signer_texts(signers, i + 1) =~= before + signer_texts(signers, i as int));
            i += 1;
        }
        assert(signer_texts(signers, i as int) =~= Seq::<char>::empty());
        s.append("\n}");
        assert(s@ =~= self@.to_string());
        s
    }
}

} // verus!
