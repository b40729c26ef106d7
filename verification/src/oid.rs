//! Object identifiers.

use crate::ber::TAG_OID;
use crate::cursor::Cursor;
use crate::error::{DecodeError, ErrorKind, Field};
use bcder::decode::Primitive;
use vstd::prelude::*;

verus! {

/// Whether `content` can be the content of an OBJECT IDENTIFIER: it is not
/// empty and its last octet ends a sub-identifier.
pub open spec fn oid_well_formed(content: Seq<u8>) -> bool {
    content.len() > 0 && content.last() < 0x80
}

/// The text that `bcder` prints for the object identifier with the given
/// content octets: its components in decimal, with dots between them.
pub uninterp spec fn oid_dotted(content: Seq<u8>) -> Seq<char>;

/// An object identifier, kept as its content octets.
#[derive(Debug, PartialEq, Eq)]
pub struct Oid {
    bytes: Vec<u8>,
}

impl View for Oid {
    type V = Seq<u8>;

    closed spec fn view(&self) -> Seq<u8> {
        self.bytes@
    }
}

/// Calls `bcder::decode::Primitive::decode_slice` on `content` with
/// `bcder::Oid::from_primitive`.
///
/// Trusted: the call takes all of `content` and checks no more than that it
/// is not empty and that its last octet has the top bit clear; the
/// identifier it returns holds the same octets.
#[verifier::external_body]
fn bcder_oid_content(content: &[u8]) -> (r: Option<Vec<u8>>)
    ensures
        match r {
            Some(bytes) => oid_well_formed(content@) && bytes@ == content@,
            None => !oid_well_formed(content@),
        },
{
    Primitive::decode_slice(content, bcder::Mode::Ber, |prim| bcder::Oid::from_primitive(prim))
        .ok().map(|oid| oid.0.to_vec())
}

/// Calls `to_string`, that is `Display::fmt`, on a `bcder::Oid` that holds
/// `content`.
///
/// Trusted: the text depends on the octets alone. The call is only made on
/// content whose last octet ends a sub-identifier; on other content the
/// iteration over the components does not end well.
#[verifier::external_body]
fn bcder_oid_to_string(content: &[u8]) -> (r: String)
    requires
        oid_well_formed(content@),
    ensures
        r@ == oid_dotted(content@),
{
    bcder::Oid(content).to_string()
}

impl Clone for Oid {
    fn clone(&self) -> (r: Oid)
        ensures
            r@ == self@,
    {
        proof {
            use_type_invariant(self);
        }
        Oid { bytes: self.bytes.clone() }
    }
}

impl Oid {
    #[verifier::type_invariant]
    spec fn well_formed(self) -> bool {
        oid_well_formed(self.bytes@)
    }

    /// The object identifier with the given content octets, where they are
    /// well formed.
    pub fn from_content(content: &[u8]) -> (r: Option<Oid>)
        ensures
            match r {
                Some(oid) => oid_well_formed(content@) && oid@ == content@,
                None => !oid_well_formed(content@),
            },
    {
        match bcder_oid_content(content) {
            Some(bytes) => Some(Oid { bytes }),
            None => None,
        }
    }

    /// The content octets.
    pub fn as_bytes(&self) -> (bytes: &[u8])
        ensures
            bytes@ == self@,
            oid_well_formed(self@),
    {
        proof {
            use_type_invariant(self);
        }
        self.bytes.as_slice()
    }

    /// The identifier in dotted decimal notation.
    pub fn to_string(&self) -> (s: String)
        ensures
            s@ == oid_dotted(self@),
    {
        proof {
            use_type_invariant(self);
        }
        bcder_oid_to_string(self.bytes.as_slice())
    }

    /// What [`Oid::take_from`] returns on a cursor: the content of the
    /// OBJECT IDENTIFIER at the cursor and the cursor behind it.
    pub open spec fn spec_take_from(c: crate::cursor::CursorView, field: Field) -> Result<
        (Seq<u8>, crate::cursor::CursorView),
        DecodeError,
    > {
        match c.expect(TAG_OID, false, field) {
            Err(e) => Err(e),
            Ok(h) => if oid_well_formed(c.content(h)) {
                Ok((c.content(h), c.after(h)))
            } else {
                Err(c.error(ErrorKind::InvalidOid, field))
            },
        }
    }

    /// Takes an OBJECT IDENTIFIER from the cursor. On an error the cursor
    /// stays where it was.
    pub fn take_from(cons: &mut Cursor, field: Field) -> (r: Result<Oid, DecodeError>)
        requires
            old(cons)@.wf(),
        ensures
            final(cons)@.wf(),
            match Oid::spec_take_from(old(cons)@, field) {
                Ok((content, after)) => r matches Ok(oid) && oid@ == content && final(cons)@
                    == after,
                Err(e) => r == Err::<Oid, DecodeError>(e) && final(cons)@ == old(cons)@,
            },
    {
        let e = cons.expect(TAG_OID, false, field)?;
        let content = vstd::slice::slice_subrange(cons.data, e.content, e.end);
        match Oid::from_content(content) {
            Some(oid) => {
                cons.skip(&e);
                Ok(oid)
            },
            None => Err(DecodeError { kind: ErrorKind::InvalidOid, field, offset: cons.pos }),
        }
    }
}

} // verus!
