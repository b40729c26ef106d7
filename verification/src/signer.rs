//! Signer infos.

use crate::algorithm::{AlgorithmIdentifier, AlgorithmIdentifierView};
use crate::attribute::{
    encode_set, lemma_der_length_is_shortest, lemma_set_encoding,
    lemma_set_encoding_frames_a_set, set_encoding, Attribute, AttributeView,
    AuthenticatedAttributes,
};
use crate::ber::{
    header_of, lemma_header_bounds, Header, Mode, TAG_CTX_0, TAG_CTX_1, TAG_SEQUENCE, TAG_SET,
};
use crate::certificate::{spec_take_name, take_name};
use crate::cursor::{lemma_header_extent, Cursor, CursorView};
use crate::error::{DecodeError, ErrorKind, Field};
use crate::model::{lemma_views_push, views};
use crate::primitive::{spec_take_u8, take_u8};
use crate::text::{byte_list, decimal, push_byte_list, push_decimal};
use vstd::prelude::*;
use vstd::string::StringExecFns;

verus! {

/// What names the certificate of a signer: the content octets of the name
/// of its issuer and those of its serial number.
#[derive(Clone, Debug, PartialEq, Eq)]
pub struct SignerIdentifier {
    pub issuer: Vec<u8>,
    pub serial_number: Vec<u8>,
}

/// The mathematical value of a [`SignerIdentifier`].
pub struct SignerIdentifierView {
    pub issuer: Seq<u8>,
    pub serial_number: Seq<u8>,
}

impl View for SignerIdentifier {
    type V = SignerIdentifierView;

    open spec fn view(&self) -> SignerIdentifierView {
        SignerIdentifierView { issuer: self.issuer@, serial_number: self.serial_number@ }
    }
}

impl SignerIdentifier {
    /// What [`SignerIdentifier::take_from`] returns on a cursor.
    pub open spec fn spec_take_from(c: CursorView) -> Result<
        (SignerIdentifierView, CursorView),
        DecodeError,
    > {
        match c.expect(TAG_SEQUENCE, true, Field::SignerIdentifier) {
            Err(e) => Err(e),
            Ok(h) => match spec_take_name(c.inner(h), Field::Issuer) {
                Err(e) => Err(e),
                Ok((issuer, c1)) => match c1.expect_primitive(Field::SerialNumber) {
                    Err(e) => Err(e),
                    Ok(serial) => match c1.after(serial).finish(Field::SignerIdentifier) {
                        Err(e) => Err(e),
                        Ok(_) => Ok(
                            (
                                SignerIdentifierView { issuer, serial_number: c1.content(serial) },
                                c.after(h),
                            ),
                        ),
                    },
                },
            },
        }
    }

    /// Takes a SignerIdentifier from the cursor: a SEQUENCE of the name of
    /// an issuer and a serial number, both kept as they stand. On an error
    /// the cursor stays where it was.
    pub fn take_from(cons: &mut Cursor) -> (r: Result<SignerIdentifier, DecodeError>)
        requires
            old(cons)@.wf(),
        ensures
            final(cons)@.wf(),
            match SignerIdentifier::spec_take_from(old(cons)@) {
                Ok((v, after)) => r matches Ok(s) && s@ == v && final(cons)@ == after,
                Err(e) => r == Err::<SignerIdentifier, DecodeError>(e) && final(cons)@ == old(
                    cons,
                )@,
            },
    {
        let e = cons.expect(TAG_SEQUENCE, true, Field::SignerIdentifier)?;
        let mut outer = *cons;
        let mut inner = outer.enter(&e);
        let issuer = take_name(&mut inner, Field::Issuer)?;
        let serial = inner.expect_primitive(Field::SerialNumber)?;
        let serial_number = inner.content(&serial);
        inner.skip(&serial);
        inner.finish(Field::SignerIdentifier)?;
        *cons = outer;
        Ok(SignerIdentifier { issuer, serial_number })
    }
}

/// The view of an optional list of attributes.
pub open spec fn optional_attributes(attributes: Option<Vec<Attribute>>) -> Option<
    Seq<AttributeView>,
> {
    match attributes {
        Some(list) => Some(views(list@)),
        None => None,
    }
}

/// The assertion of one signer.
///
/// `auth_attributes` is absent where the wire has no authenticated
/// attributes; `auth_bytes` is then empty. Where it has them, `auth_bytes`
/// is their encoding as a SET, which is what the signature covers.
#[derive(Clone, Debug, PartialEq, Eq)]
pub struct SignerInfo {
    pub version: u8,
    pub signer_identifier: SignerIdentifier,
    pub digest_algorithm: AlgorithmIdentifier,
    pub auth_attributes: Option<Vec<Attribute>>,
    pub auth_bytes: Vec<u8>,
    pub signature_algorithm: AlgorithmIdentifier,
    pub signature: Vec<u8>,
}

/// The mathematical value of a [`SignerInfo`].
pub struct SignerInfoView {
    pub version: u8,
    pub signer_identifier: SignerIdentifierView,
    pub digest_algorithm: AlgorithmIdentifierView,
    pub auth_attributes: Option<Seq<AttributeView>>,
    pub auth_bytes: Seq<u8>,
    pub signature_algorithm: AlgorithmIdentifierView,
    pub signature: Seq<u8>,
}

impl View for SignerInfo {
    type V = SignerInfoView;

    open spec fn view(&self) -> SignerInfoView {
        SignerInfoView {
            version: self.version,
            signer_identifier: self.signer_identifier@,
            digest_algorithm: self.digest_algorithm@,
            auth_attributes: optional_attributes(self.auth_attributes),
            auth_bytes: self.auth_bytes@,
            signature_algorithm: self.signature_algorithm@,
            signature: self.signature@,
        }
    }
}

impl SignerInfoView {
    /// The text of this value.
    pub open spec fn to_string(self) -> Seq<char> {
        "SignerInfo {\n  version: "@ + decimal(self.version as nat) + ",\n  digest_algorithm: "@
            + self.digest_algorithm.to_string() + ",\n  encrypted_digest: "@ + byte_list(
            self.signature,
        ) + "\n}"@
    }
}

/// The signer infos that a cursor holds, and the error for what is left
/// where not all of it decodes.
#[derive(Clone, Debug, PartialEq, Eq)]
pub struct SignerInfoSet {
    pub signer_infos: Vec<SignerInfo>,
    pub error: Option<DecodeError>,
}

/// The authenticated-attributes field at the cursor, where one stands
/// there: a constructed value with the context tag `[0]` or `[1]`, 0xA0 or
/// 0xA1 on the wire. Absent at the end and where another tag stands;
/// `UnexpectedTag` where one of the two tags stands on a primitive value.
pub open spec fn spec_expect_attributes_field(c: CursorView) -> Result<
    Option<Header>,
    DecodeError,
> {
    match c.expect_opt(TAG_CTX_0, true, Field::AuthenticatedAttributes) {
        Err(e) => Err(e),
        Ok(Some(h)) => Ok(Some(h)),
        Ok(None) => c.expect_opt(TAG_CTX_1, true, Field::AuthenticatedAttributes),
    }
}

/// What [`take_authenticated_attributes`] returns on a cursor: the
/// attributes, their encoding as a SET, and the cursor behind them.
pub open spec fn spec_take_authenticated_attributes(c: CursorView) -> Result<
    (Option<Seq<AttributeView>>, Seq<u8>, CursorView),
    DecodeError,
> {
    match spec_expect_attributes_field(c) {
        Err(e) => Err(e),
        Ok(None) => Ok((None, Seq::empty(), c)),
        Ok(Some(h)) => match Attribute::spec_take_all(c.inner(h).with_mode(Mode::Ber)) {
            (_, Some(e)) => Err(e),
            (attributes, None) => Ok((Some(attributes), set_encoding(c.content(h)), c.after(h))),
        },
    }
}

/// Takes the authenticated attributes of a signer where the cursor stands
/// at them: a constructed `[0]` or `[1]` whose content is a run of
/// attributes, read under the permissive rules. Their SET encoding is made
/// of the same content, whichever of the two tags stood on the wire. Where
/// another tag stands at the cursor, or nothing, they are absent and the
/// cursor does not move. On an error the cursor stays where it was.
pub fn take_authenticated_attributes(cons: &mut Cursor) -> (r: Result<
    (Option<Vec<Attribute>>, Vec<u8>),
    DecodeError,
>)
    requires
        old(cons)@.wf(),
    ensures
        final(cons)@.wf(),
        match spec_take_authenticated_attributes(old(cons)@) {
            Ok((attributes, bytes, after)) => r matches Ok(v) && optional_attributes(v.0)
                == attributes && v.1@ == bytes && final(cons)@ == after,
            Err(e) => r == Err::<(Option<Vec<Attribute>>, Vec<u8>), DecodeError>(e) && final(cons)@
                == old(cons)@,
        },
{
    let field = match cons.expect_opt(TAG_CTX_0, true, Field::AuthenticatedAttributes)? {
        Some(e) => Some(e),
        None => cons.expect_opt(TAG_CTX_1, true, Field::AuthenticatedAttributes)?,
    };
    match field {
        None => Ok((None, Vec::new())),
        Some(e) => {
            let mut outer = *cons;
            let inner = outer.enter(&e).with_mode(Mode::Ber);
            let set = Attribute::take_all(&inner);
            match set.error {
                Some(error) => Err(error),
                None => {
                    let bytes = encode_set(
                        vstd::slice::slice_subrange(cons.data, e.content, e.end),
                    );
                    *cons = outer;
                    Ok((Some(set.attributes), bytes))
                },
            }
        },
    }
}

/// A field of authenticated attributes is taken whether its first octet on
/// the wire is 0xA0 or 0xA1, provided its content is a run of attributes.
pub proof fn lemma_both_wire_tags_are_taken(c: CursorView)
    requires
        c.wf(),
        !c.at_end(),
        c.data[c.pos] == 0xA0 || c.data[c.pos] == 0xA1,
        c.header() matches Some(h) && Attribute::spec_take_all(
            c.inner(h).with_mode(Mode::Ber),
        ).1 is None,
    ensures
        ({
            &&& spec_take_authenticated_attributes(c) matches Ok((Some(_), bytes, after))
            &&& bytes[0] == 0x31
            &&& after == c.after(c.header()->Some_0)
        }),
{
}

/// The bytes that are kept for authenticated attributes start with the
/// octet 0x31 whichever tag stood on the wire, declare exactly the content
/// length that the field declared, are one octet of tag, the length octets
/// and that many octets of content long, and hold the content of the field.
pub proof fn lemma_authenticated_attributes_as_set(c: CursorView)
    requires
        c.wf(),
    ensures
        spec_take_authenticated_attributes(c) matches Ok((Some(_), bytes, _)) ==> {
            &&& c.data[c.pos] == 0xA0 || c.data[c.pos] == 0xA1
            &&& c.header() matches Some(h)
            &&& header_of(bytes) matches Some(g)
            &&& bytes[0] == 0x31
            &&& g.id_len == 1
            &&& g.content_len == h.content_len
            &&& bytes.len() == 1 + g.len_len + h.content_len
            &&& bytes.len() <= h.extent()
            &&& bytes.subrange(g.header_len() as int, bytes.len() as int) == c.content(h)
        },
{
    if let Ok((Some(_), bytes, _)) = spec_take_authenticated_attributes(c) {
        let h = c.header()->Some_0;
        lemma_header_extent(c);
        lemma_header_bounds(c.remaining());
        lemma_der_length_is_shortest(c.remaining());
        lemma_set_encoding(c.content(h));
    }
}

/// The bytes that are kept for authenticated attributes decode again, on
/// their own, to the attributes that were taken from the wire.
pub proof fn lemma_kept_set_decodes_again(c: CursorView)
    requires
        c.wf(),
    ensures
        spec_take_authenticated_attributes(c) matches Ok((Some(attributes), bytes, _))
            ==> AuthenticatedAttributes::spec_decode(bytes) == Ok::<
            Seq<AttributeView>,
            DecodeError,
        >(attributes),
{
    if let Ok((Some(attributes), bytes, _)) = spec_take_authenticated_attributes(c) {
        let h = c.header()->Some_0;
        lemma_header_extent(c);
        lemma_header_bounds(c.remaining());
        lemma_authenticated_attributes_as_set(c);
        let content = c.content(h);
        let x = c.inner(h).with_mode(Mode::Ber);
        assert(x.remaining() =~= content);
        assert(bytes == set_encoding(content));
        assert(bytes.len() <= usize::MAX);
        lemma_set_encoding_frames_a_set(content, Field::AuthenticatedAttributes);
        let d = CursorView::over(bytes, Mode::Ber);
        let g = d.expect(TAG_SET, true, Field::AuthenticatedAttributes)->Ok_0;
        Attribute::lemma_take_all_reads_like(x, d.inner(g));
    }
}

impl AuthenticatedAttributes {
    /// What [`AuthenticatedAttributes::decode`] returns on the given bytes.
    pub open spec fn spec_decode(set: Seq<u8>) -> Result<Seq<AttributeView>, DecodeError> {
        let c = CursorView::over(set, Mode::Ber);
        match c.expect(TAG_SET, true, Field::AuthenticatedAttributes) {
            Err(e) => Err(e),
            Ok(h) => match Attribute::spec_take_all(c.inner(h)) {
                (_, Some(e)) => Err(e),
                (attributes, None) => Ok(attributes),
            },
        }
    }

    /// Decodes the SET encoding of authenticated attributes, as
    /// [`SignerInfo`] holds it in `auth_bytes`, under the permissive rules.
    /// What follows the SET in `set` is not read.
    pub fn decode(set: &[u8]) -> (r: Result<AuthenticatedAttributes, DecodeError>)
        ensures
            match AuthenticatedAttributes::spec_decode(set@) {
                Ok(attributes) => r matches Ok(a) && views(a.attributes@) == attributes,
                Err(e) => r == Err::<AuthenticatedAttributes, DecodeError>(e),
            },
    {
        let mut cons = Cursor::new(set, Mode::Ber);
        let e = cons.expect(TAG_SET, true, Field::AuthenticatedAttributes)?;
        let inner = cons.enter(&e);
        let found = Attribute::take_all(&inner);
        match found.error {
            Some(error) => Err(error),
            None => Ok(AuthenticatedAttributes { attributes: found.attributes }),
        }
    }
}

impl SignerInfo {
    /// What [`SignerInfo::take_from`] returns on a cursor.
    #[verifier::opaque]
    pub open spec fn spec_take_from(c: CursorView) -> Result<
        (SignerInfoView, CursorView),
        DecodeError,
    > {
        match c.expect(TAG_SEQUENCE, true, Field::SignerInfo) {
            Err(e) => Err(e),
            Ok(h) => match spec_take_u8(c.inner(h), Field::Version) {
                Err(e) => Err(e),
                Ok((version, c1)) => match SignerIdentifier::spec_take_from(c1) {
                    Err(e) => Err(e),
                    Ok((signer_identifier, c2)) => match AlgorithmIdentifier::spec_take_from(c2) {
                        Err(e) => Err(e),
                        Ok((digest_algorithm, c3)) => match spec_take_authenticated_attributes(c3) {
                            Err(e) => Err(e),
                            Ok((auth_attributes, auth_bytes, c4)) =>
                                match AlgorithmIdentifier::spec_take_from(c4) {
                                Err(e) => Err(e),
                                Ok((signature_algorithm, c5)) => match c5.expect_primitive(
                                    Field::Signature,
                                ) {
                                    Err(e) => Err(e),
                                    Ok(signature) => Ok(
                                        (
                                            SignerInfoView {
                                                version,
                                                signer_identifier,
                                                digest_algorithm,
                                                auth_attributes,
                                                auth_bytes,
                                                signature_algorithm,
                                                signature: c5.content(signature),
                                            },
                                            c.after(h),
                                        ),
                                    ),
                                },
                            },
                        },
                    },
                },
            },
        }
    }

    /// Takes a SignerInfo from the cursor: a SEQUENCE of a version, the
    /// signer identifier, the digest algorithm, the authenticated attributes
    /// where there are any, the signature algorithm and the signature, a
    /// primitive value whose content is kept as it stands. What follows the
    /// signature in the SEQUENCE is passed over. On an error the cursor stays
    /// where it was.
    pub fn take_from(cons: &mut Cursor) -> (r: Result<SignerInfo, DecodeError>)
        requires
            old(cons)@.wf(),
        ensures
            final(cons)@.wf(),
            match SignerInfo::spec_take_from(old(cons)@) {
                Ok((v, after)) => r matches Ok(s) && s@ == v && final(cons)@ == after,
                Err(e) => r == Err::<SignerInfo, DecodeError>(e) && final(cons)@ == old(cons)@,
            },
    {
        reveal(SignerInfo::spec_take_from);
        let e = cons.expect(TAG_SEQUENCE, true, Field::SignerInfo)?;
        let mut outer = *cons;
        let mut inner = outer.enter(&e);
        let version = take_u8(&mut inner, Field::Version)?;
        let signer_identifier = SignerIdentifier::take_from(&mut inner)?;
        let digest_algorithm = AlgorithmIdentifier::take_from(&mut inner)?;
        let (auth_attributes, auth_bytes) = take_authenticated_attributes(&mut inner)?;
        let signature_algorithm = AlgorithmIdentifier::take_from(&mut inner)?;
        let element = inner.expect_primitive(Field::Signature)?;
        let signature = inner.content(&element);
        inner.skip_all();
        *cons = outer;
        Ok(
            SignerInfo {
                version,
                signer_identifier,
                digest_algorithm,
                auth_attributes,
                auth_bytes,
                signature_algorithm,
                signature,
            },
        )
    }

    /// What [`SignerInfo::take_all`] returns on a cursor: the signer infos
    /// that decode one after the other from the cursor on; then
    /// `TrailingGarbage` where no SEQUENCE is framed at an offset before the
    /// end, and the error of the element where one is framed and does not
    /// decode.
    pub open spec fn spec_take_all(c: CursorView) -> (Seq<SignerInfoView>, Option<DecodeError>)
        decreases c.end - c.pos,
    {
        if c.at_end() {
            (Seq::empty(), None)
        } else if c.expect(TAG_SEQUENCE, true, Field::SignerInfos) is Err {
            (Seq::empty(), Some(c.error(ErrorKind::TrailingGarbage, Field::SignerInfos)))
        } else {
            // Taking a value moves a cursor forward; the test on the
            // positions says so where the recursion is checked.
            match SignerInfo::spec_take_from(c) {
                Err(e) => (Seq::empty(), Some(e)),
                Ok((v, after)) => if c.pos < after.pos <= after.end == c.end {
                    let (rest, error) = SignerInfo::spec_take_all(after);
                    (seq![v] + rest, error)
                } else {
                    (seq![v], None)
                },
            }
        }
    }

    /// A signer info that is taken from a cursor is the value that is
    /// framed there, a SEQUENCE, and the cursor is then behind that value.
    pub proof fn lemma_take_from_frames(c: CursorView)
        ensures
            SignerInfo::spec_take_from(c) matches Ok((_, after)) ==> c.header() matches Some(h)
                && after == c.after(h) && !c.at_end() && c.tag() == TAG_SEQUENCE
                && c.constructed(),
    {
        reveal(SignerInfo::spec_take_from);
    }

    /// In a signer info that is taken from a cursor, the kept bytes of the
    /// authenticated attributes are empty where there are none, and are
    /// else one whole SET: they start with the octet 0x31 and their header
    /// declares all that follows it.
    pub proof fn lemma_auth_bytes_are_a_set(c: CursorView)
        requires
            c.wf(),
        ensures
            SignerInfo::spec_take_from(c) matches Ok((v, _)) ==> match v.auth_attributes {
                Some(_) => {
                    &&& v.auth_bytes.len() > 0
                    &&& v.auth_bytes[0] == 0x31
                    &&& header_of(v.auth_bytes) matches Some(g)
                    &&& g.extent() == v.auth_bytes.len()
                },
                None => v.auth_bytes.len() == 0,
            },
    {
        reveal(SignerInfo::spec_take_from);
        lemma_header_extent(c);
        if let Ok((v, _)) = SignerInfo::spec_take_from(c) {
            let i0 = c.inner(c.header()->Some_0);
            lemma_header_extent(i0);
            let c1 = spec_take_u8(i0, Field::Version)->Ok_0.1;
            lemma_header_extent(c1);
            let c2 = SignerIdentifier::spec_take_from(c1)->Ok_0.1;
            lemma_header_extent(c2);
            let c3 = AlgorithmIdentifier::spec_take_from(c2)->Ok_0.1;
            lemma_authenticated_attributes_as_set(c3);
        }
    }

    /// In a signer info that is taken from a cursor, the kept bytes of the
    /// authenticated attributes decode again, on their own, to the
    /// attributes of the signer info.
    pub proof fn lemma_auth_bytes_decode_again(c: CursorView)
        requires
            c.wf(),
        ensures
            SignerInfo::spec_take_from(c) matches Ok((v, _)) ==> (v.auth_attributes matches Some(
                attributes,
            ) ==> AuthenticatedAttributes::spec_decode(v.auth_bytes) == Ok::<
                Seq<AttributeView>,
                DecodeError,
            >(attributes)),
    {
        reveal(SignerInfo::spec_take_from);
        lemma_header_extent(c);
        if let Ok((v, _)) = SignerInfo::spec_take_from(c) {
            let i0 = c.inner(c.header()->Some_0);
            lemma_header_extent(i0);
            let c1 = spec_take_u8(i0, Field::Version)->Ok_0.1;
            lemma_header_extent(c1);
            let c2 = SignerIdentifier::spec_take_from(c1)->Ok_0.1;
            lemma_header_extent(c2);
            let c3 = AlgorithmIdentifier::spec_take_from(c2)->Ok_0.1;
            lemma_kept_set_decodes_again(c3);
        }
    }

    /// Takes signer infos from the cursor until it is at its end or what is
    /// left does not decode as a signer info. The signer infos that were
    /// taken are returned in either case.
    pub fn take_all(cons: &Cursor) -> (r: SignerInfoSet)
        requires
            cons@.wf(),
        ensures
            views(r.signer_infos@) == SignerInfo::spec_take_all(cons@).0,
            r.error == SignerInfo::spec_take_all(cons@).1,
    {
        let mut signer_infos: Vec<SignerInfo> = Vec::new();
        let mut cur = *cons;
        let mut error: Option<DecodeError> = None;
        assert(views(signer_infos@) =~= Seq::<SignerInfoView>::empty());
        while error.is_none() && !cur.at_end()
            invariant
                cur@.wf(),
                error is None ==> SignerInfo::spec_take_all(cons@).0 == views(signer_infos@)
                    + SignerInfo::spec_take_all(cur@).0,
                error is None ==> SignerInfo::spec_take_all(cons@).1 == SignerInfo::spec_take_all(
                    cur@,
                ).1,
                error is Some ==> SignerInfo::spec_take_all(cons@) == (views(signer_infos@), error),
            decreases (if error is None { 1int } else { 0int }), cur.end - cur.pos,
        {
            let ghost before = cur@;
            let ghost taken = views(signer_infos@);
            proof {
                SignerInfo::lemma_take_from_frames(before);
                lemma_header_extent(before);
            }
            match cur.expect(TAG_SEQUENCE, true, Field::SignerInfos) {
                Err(_) => {
                    error = Some(
                        DecodeError {
                            kind: ErrorKind::TrailingGarbage,
                            field: Field::SignerInfos,
                            offset: cur.pos,
                        },
                    );
                    assert(taken + Seq::<SignerInfoView>::empty() =~= taken);
                },
                Ok(_) => match SignerInfo::take_from(&mut cur) {
                    Ok(signer) => {
                        proof {
                            lemma_views_push(signer_infos@, signer);
                            assert(taken + (seq![signer@] + SignerInfo::spec_take_all(cur@).0)
                                =~= taken.push(signer@) + SignerInfo::spec_take_all(cur@).0);
                        }
                        signer_infos.push(signer);
                    },
                    Err(e) => {
                        error = Some(e);
                        assert(taken + Seq::<SignerInfoView>::empty() =~= taken);
                    },
                },
            }
        }
        proof {
            if error is None {
                assert(views(signer_infos@) + Seq::<SignerInfoView>::empty() =~= views(
                    signer_infos@,
                ));
            }
        }
        SignerInfoSet { signer_infos, error }
    }

    /// This value as text: the version, the digest algorithm and the
    /// signature as a list of bytes.
    pub fn to_string(&self) -> (s: String)
        ensures
            s@ == self@.to_string(),
    {
        let mut s = String::from_str("SignerInfo {\n  version: ");
        push_decimal(&mut s, self.version as u64);
        s.append(",\n  digest_algorithm: ");
        let algorithm = self.digest_algorithm.to_string();
        s.append(algorithm.as_str());
        s.append(",\n  encrypted_digest: ");
        push_byte_list(&mut s, self.signature.as_slice());
        s.append("\n}");
        assert(s@ =~= self@.to_string());
        s
    }
}

} // verus!
