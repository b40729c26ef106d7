//! The PKCS#7 envelope.

use crate::ber::{header_of, lemma_short_buffer_has_no_first_value, Mode, TAG_CTX_0, TAG_SEQUENCE};
use crate::cursor::{Cursor, CursorView};
use crate::error::{DecodeError, ErrorKind, Field};
use crate::oid::{oid_dotted, Oid};
use crate::signed_data::{SignedData, SignedDataView};
use vstd::prelude::*;
use vstd::string::StringExecFns;

verus! {

/// An envelope: the type of its content, the signed data it holds, and the
/// octets of that signed data as they stand on the wire.
#[derive(Clone, Debug, PartialEq, Eq)]
pub struct Pkcs7 {
    pub content_type: Oid,
    pub content: SignedData,
    pub content_bytes: Vec<u8>,
}

/// The mathematical value of a [`Pkcs7`].
pub struct Pkcs7View {
    pub content_type: Seq<u8>,
    pub content: SignedDataView,
    pub content_bytes: Seq<u8>,
}

impl View for Pkcs7 {
    type V = Pkcs7View;

    open spec fn view(&self) -> Pkcs7View {
        Pkcs7View {
            content_type: self.content_type@,
            content: self.content@,
            content_bytes: self.content_bytes@,
        }
    }
}

impl Pkcs7View {
    /// The text of this value.
    pub open spec fn to_string(self) -> Seq<char> {
        "Pkcs7 {\n  content_type: "@ + oid_dotted(self.content_type) + ",\n  content: "@
            + self.content.to_string() + "\n}"@
    }
}

/// The payload of the PEM document `input`, as the `pem` crate unwraps it;
/// `None` where it finds no document.
pub uninterp spec fn pem_contents(input: Seq<u8>) -> Option<Seq<u8>>;

/// The error of the `pem` crate.
#[verifier::external_type_specification]
#[verifier::external_body]
pub struct ExPemError(pem::PemError);

/// Calls `pem::parse` on `input` and `Pem::into_contents` on the document.
///
/// Trusted: whether a document is found, and the payload that it holds,
/// depend on the bytes of `input` alone.
#[verifier::external_body]
fn pem_parse(input: &[u8]) -> (r: Result<Vec<u8>, pem::PemError>)
    ensures
        match pem_contents(input@) {
            Some(payload) => r matches Ok(v) && v@ == payload,
            None => r is Err,
        },
{
    pem::parse(input).map(|document| document.into_contents())
}

impl Pkcs7 {
    /// What [`Pkcs7::take_from`] returns on a cursor.
    pub open spec fn spec_take_from(c: CursorView) -> Result<(Pkcs7View, CursorView), DecodeError> {
        match c.expect(TAG_SEQUENCE, true, Field::Envelope) {
            Err(e) => Err(e),
            Ok(h) => match Oid::spec_take_from(c.inner(h), Field::ContentType) {
                Err(e) => Err(e),
                Ok((content_type, c1)) => match c1.with_mode(Mode::Ber).expect(
                    TAG_CTX_0,
                    true,
                    Field::Content,
                ) {
                    Err(e) => Err(e),
                    Ok(wrapper) => match SignedData::spec_take_from(
                        c1.with_mode(Mode::Ber).inner(wrapper),
                    ) {
                        Err(e) => Err(e),
                        Ok((content, c2)) => match c2.finish(Field::Content) {
                            Err(e) => Err(e),
                            Ok(_) => match c1.with_mode(Mode::Ber).after(wrapper).finish(
                                Field::Envelope,
                            ) {
                                Err(e) => Err(e),
                                Ok(_) => Ok(
                                    (
                                        Pkcs7View {
                                            content_type,
                                            content,
                                            content_bytes: c1.content(wrapper),
                                        },
                                        c.after(h),
                                    ),
                                ),
                            },
                        },
                    },
                },
            },
        }
    }

    /// Takes an envelope from the cursor: a SEQUENCE of the content type and
    /// a constructed `[0]` that holds the signed data and nothing else. The
    /// content type is read under the rules of the cursor; all that follows
    /// it is read under the permissive rules. On an error the cursor stays
    /// where it was.
    pub fn take_from(cons: &mut Cursor) -> (r: Result<Pkcs7, DecodeError>)
        requires
            old(cons)@.wf(),
        ensures
            final(cons)@.wf(),
            match Pkcs7::spec_take_from(old(cons)@) {
                Ok((v, after)) => r matches Ok(p) && p@ == v && final(cons)@ == after,
                Err(e) => r == Err::<Pkcs7, DecodeError>(e) && final(cons)@ == old(cons)@,
            },
    {
        let e = cons.expect(TAG_SEQUENCE, true, Field::Envelope)?;
        let mut outer = *cons;
        let mut inner = outer.enter(&e);
        let content_type = Oid::take_from(&mut inner, Field::ContentType)?;
        let mut region = inner.with_mode(Mode::Ber);
        let wrapper = region.expect(TAG_CTX_0, true, Field::Content)?;
        let content_bytes = region.content(&wrapper);
        let mut body = region.enter(&wrapper);
        let content = SignedData::take_from(&mut body)?;
        body.finish(Field::Content)?;
        region.finish(Field::Envelope)?;
        *cons = outer;
        Ok(Pkcs7 { content_type, content, content_bytes })
    }

    /// What [`Pkcs7::decode`] returns on the given bytes.
    pub open spec fn spec_decode(input: Seq<u8>, mode: Mode) -> Result<Pkcs7View, DecodeError> {
        match Pkcs7::spec_take_from(CursorView::over(input, mode)) {
            Ok((v, _)) => Ok(v),
            Err(e) => Err(e),
        }
    }

    /// Decodes the envelope that starts `input`. What follows the envelope
    /// in `input` is not read.
    pub fn decode(input: &[u8], mode: Mode) -> (r: Result<Pkcs7, DecodeError>)
        ensures
            match Pkcs7::spec_decode(input@, mode) {
                Ok(v) => r matches Ok(p) && p@ == v,
                Err(e) => r == Err::<Pkcs7, DecodeError>(e),
            },
    {
        let mut cons = Cursor::new(input, mode);
        Pkcs7::take_from(&mut cons)
    }

    /// Decoding is a function of the bytes and the rules: equal inputs give
    /// equal trees or equal errors.
    pub proof fn lemma_decode_is_deterministic(a: Seq<u8>, b: Seq<u8>, mode: Mode)
        requires
            a == b,
        ensures
            Pkcs7::spec_decode(a, mode) == Pkcs7::spec_decode(b, mode),
    {
    }

    /// A buffer that ends before the end that the length of its outermost
    /// value declares is never decoded: the result is an error, `Malformed`
    /// or, for the empty buffer, `MissingValue`.
    pub proof fn lemma_truncated_input_is_rejected(input: Seq<u8>, cut: int, mode: Mode)
        requires
            header_of(input) matches Some(h) && 0 <= cut < h.extent(),
            cut <= input.len(),
        ensures
            Pkcs7::spec_decode(input.subrange(0, cut), mode) matches Err(e) && e.offset == 0
                && e.field == Field::Envelope && e.kind == (if cut == 0 {
                ErrorKind::MissingValue
            } else {
                ErrorKind::Malformed
            }),
    {
        let t = input.subrange(0, cut);
        let c = CursorView::over(t, mode);
        lemma_short_buffer_has_no_first_value(input, cut, mode);
        assert(c.remaining() =~= t);
    }

    /// This value as text: the content type in dotted decimal notation and
    /// the signed data.
    pub fn to_string(&self) -> (s: String)
        ensures
            s@ == self@.to_string(),
    {
        let mut s = String::from_str("Pkcs7 {\n  content_type: ");
        let content_type = self.content_type.to_string();
        s.append(content_type.as_str());
        s.append(",\n  content: ");
        let content = self.content.to_string();
        s.append(content.as_str());
        s.append("\n}");
        assert(s@ =~= self@.to_string());
        s
    }
}

/// What [`load_pkcs7`] returns on the given bytes.
pub open spec fn spec_load_pkcs7(pem: Seq<u8>) -> Result<Pkcs7View, DecodeError> {
    match pem_contents(pem) {
        None => Err(DecodeError { kind: ErrorKind::InvalidPem, field: Field::Pem, offset: 0 }),
        Some(payload) => Pkcs7::spec_decode(payload, Mode::Der),
    }
}

/// Unwraps a PEM document and decodes its payload as an envelope under the
/// strict rules.
pub fn load_pkcs7(pem: &[u8]) -> (r: Result<Pkcs7, DecodeError>)
    ensures
        match spec_load_pkcs7(pem@) {
            Ok(v) => r matches Ok(p) && p@ == v,
            Err(e) => r == Err::<Pkcs7, DecodeError>(e),
        },
{
    match pem_parse(pem) {
        Err(_) => Err(DecodeError { kind: ErrorKind::InvalidPem, field: Field::Pem, offset: 0 }),
        Ok(payload) => Pkcs7::decode(payload.as_slice(), Mode::Der),
    }
}

} // verus!
