//! Authenticated attributes and their SET encoding.

use crate::ber::{big_endian, header_of, Header, Mode, TAG_SEQUENCE, TAG_SET};
use crate::cursor::{lemma_header_extent, lemma_reads_like, Cursor, CursorView};
use crate::error::{DecodeError, ErrorKind, Field};
use crate::model::{lemma_views_push, views};
use crate::oid::{oid_dotted, Oid};
use crate::text::{byte_list, push_byte_list};
use vstd::prelude::*;
use vstd::string::StringExecFns;

verus! {

/// One attribute: its type and the content octets of the SET of its values.
#[derive(Clone, Debug, PartialEq, Eq)]
pub struct Attribute {
    pub oid: Oid,
    pub value: Vec<u8>,
}

/// The mathematical value of an [`Attribute`].
pub struct AttributeView {
    pub oid: Seq<u8>,
    pub value: Seq<u8>,
}

impl View for Attribute {
    type V = AttributeView;

    open spec fn view(&self) -> AttributeView {
        AttributeView { oid: self.oid@, value: self.value@ }
    }
}

impl AttributeView {
    /// The text of this value.
    pub open spec fn to_string(self) -> Seq<char> {
        "Attribute {\n  oid: "@ + oid_dotted(self.oid) + ",\n  value: "@ + byte_list(self.value)
            + "\n}"@
    }
}

/// The octets of one attribute value.
#[derive(Clone, Debug, PartialEq, Eq)]
pub struct AttributeValue {
    pub bytes_value: Vec<u8>,
}

/// The attributes of a signer, in their order on the wire.
#[derive(Clone, Debug, PartialEq, Eq)]
pub struct AuthenticatedAttributes {
    pub attributes: Vec<Attribute>,
}

/// The attributes that a cursor holds, and the error for what is left where
/// not all of it decodes.
#[derive(Clone, Debug, PartialEq, Eq)]
pub struct AttributeSet {
    pub attributes: Vec<Attribute>,
    pub error: Option<DecodeError>,
}

/// The octets that spell `n`, most significant first, without leading zero
/// octets.
pub open spec fn big_endian_octets(n: nat) -> Seq<u8>
    decreases n,
{
    if n == 0 {
        Seq::empty()
    } else {
        big_endian_octets(n / 256).push((n % 256) as u8)
    }
}

/// The length octets of the Distinguished Encoding Rules for a content of
/// `n` octets: `n` itself below 128, else the count of the octets that spell
/// `n`, with the top bit set, and those octets.
pub open spec fn der_length(n: nat) -> Seq<u8> {
    if n < 128 {
        seq![n as u8]
    } else {
        seq![(128 + big_endian_octets(n).len()) as u8] + big_endian_octets(n)
    }
}

/// The encoding of a SET with the given content: the universal tag of a
/// constructed SET, the length of the content, and the content.
pub open spec fn set_encoding(content: Seq<u8>) -> Seq<u8> {
    seq![0x31u8] + der_length(content.len()) + content
}

/// The octets that spell a number spell that number, and a number below
/// 256 to the k takes at most k of them.
pub proof fn lemma_big_endian_octets(n: nat)
    ensures
        big_endian(big_endian_octets(n)) == n,
        n > 0 ==> big_endian_octets(n).len() > 0,
        n < 0x100 ==> big_endian_octets(n).len() <= 1,
        n < 0x1_0000 ==> big_endian_octets(n).len() <= 2,
        n < 0x100_0000 ==> big_endian_octets(n).len() <= 3,
        n < 0x1_0000_0000 ==> big_endian_octets(n).len() <= 4,
        n < 0x100_0000_0000 ==> big_endian_octets(n).len() <= 5,
        n < 0x1_0000_0000_0000 ==> big_endian_octets(n).len() <= 6,
        n < 0x100_0000_0000_0000 ==> big_endian_octets(n).len() <= 7,
        n < 0x1_0000_0000_0000_0000 ==> big_endian_octets(n).len() <= 8,
    decreases n,
{
    if n > 0 {
        lemma_big_endian_octets(n / 256);
        let s = big_endian_octets(n);
        assert(s.drop_last() =~= big_endian_octets(n / 256));
        assert(s.last() == (n % 256) as u8);
        if n / 256 > 0 {
            lemma_big_endian_octets((n / 256) / 256);
        }
    }
}

/// Appends the octets that spell `n` to `out`.
fn push_big_endian(out: &mut Vec<u8>, n: usize)
    ensures
        final(out)@ == old(out)@ + big_endian_octets(n as nat),
    decreases n,
{
    if n > 0 {
        push_big_endian(out, n / 256);
        out.push((n % 256) as u8);
        assert(final(out)@ =~= old(out)@ + big_endian_octets(n as nat));
    } else {
        assert(final(out)@ =~= old(out)@ + big_endian_octets(n as nat));
    }
}

/// Encodes `content` as a SET: what a signature over attributes covers.
pub fn encode_set(content: &[u8]) -> (r: Vec<u8>)
    ensures
        r@ == set_encoding(content@),
{
    let n = content.len();
    let mut r: Vec<u8> = Vec::new();
    r.push(0x31);
    if n < 128 {
        r.push(n as u8);
    } else {
        let mut digits: Vec<u8> = Vec::new();
        push_big_endian(&mut digits, n);
        proof {
            lemma_big_endian_octets(n as nat);
            assert(digits@ =~= big_endian_octets(n as nat));
        }
        r.push((128 + digits.len()) as u8);
        let mut i: usize = 0;
        while i < digits.len()
            invariant
                0 <= i <= digits.len(),
                r@ == seq![0x31u8, (128 + digits.len()) as u8] + digits@.subrange(0, i as int),
            decreases digits.len() - i,
        {
            r.push(digits[i]);
            assert(r@ =~= seq![0x31u8, (128 + digits.len()) as u8] + digits@.subrange(
                0,
                i + 1,
            ));
            i += 1;
        }
        assert(digits@.subrange(0, digits.len() as int) =~= digits@);
    }
    let ghost prefix = r@;
    let mut j: usize = 0;
    while j < n
        invariant
            n == content.len(),
            0 <= j <= n,
            r@ == prefix + content@.subrange(0, j as int),
        decreases n - j,
    {
        r.push(content[j]);
        assert(r@ =~= prefix + content@.subrange(0, j + 1));
        j += 1;
    }
    assert(content@.subrange(0, n as int) =~= content@);
    assert(r@ =~= set_encoding(content@));
    r
}

/// The SET encoding of a content starts with the octet 0x31 and ends with
/// the content, and where the content is shorter than 2 to the 32 its header
/// is one octet of tag and the length octets that declare exactly the
/// length of the content.
pub proof fn lemma_set_encoding(content: Seq<u8>)
    ensures
        set_encoding(content)[0] == 0x31,
        set_encoding(content).len() == 1 + der_length(content.len()).len() + content.len(),
        set_encoding(content).subrange(
            1 + der_length(content.len()).len() as int,
            set_encoding(content).len() as int,
        ) == content,
        content.len() < 0x1_0000_0000 ==> header_of(set_encoding(content)) == Some(
            Header { id_len: 1, len_len: der_length(content.len()).len(), content_len: content.len() },
        ),
{
    let n = content.len();
    let e = set_encoding(content);
    let l = der_length(n);
    assert(e.subrange(1 + l.len() as int, e.len() as int) =~= content);
    if n < 0x1_0000_0000 {
        lemma_big_endian_octets(n);
        if n >= 128 {
            let d = big_endian_octets(n);
            assert(e[1] == (128 + d.len()) as u8);
            assert(e.subrange(2, 2 + d.len() as int) =~= d);
        }
    }
}

/// The length octets of the Distinguished Encoding Rules are no more than
/// the length octets of any header that declares the same length.
pub proof fn lemma_der_length_is_shortest(s: Seq<u8>)
    ensures
        header_of(s) matches Some(h) ==> der_length(h.content_len).len() <= h.len_len,
{
    if header_of(s) is Some {
        let h = header_of(s)->Some_0;
        let at = h.id_len as int;
        lemma_big_endian_octets(h.content_len);
        if s[at] >= 0x80 {
            let n = s[at] - 0x80;
            crate::ber::lemma_big_endian_bound(s.subrange(at + 1, at + 1 + n));
        }
    }
}

/// The SET encoding of a content shorter than 2 to the 32, read on its own
/// under the permissive rules, frames a SET whose content is that content.
pub proof fn lemma_set_encoding_frames_a_set(content: Seq<u8>, field: Field)
    requires
        content.len() < 0x1_0000_0000,
        set_encoding(content).len() <= usize::MAX,
    ensures
        ({
            let d = CursorView::over(set_encoding(content), Mode::Ber);
            &&& d.expect(TAG_SET, true, field) matches Ok(g)
            &&& d.inner(g).wf()
            &&& d.inner(g).mode == Mode::Ber
            &&& d.inner(g).remaining() == content
        }),
{
    let bytes = set_encoding(content);
    let d = CursorView::over(bytes, Mode::Ber);
    lemma_set_encoding(content);
    assert(d.remaining() =~= bytes);
    let g = header_of(bytes)->Some_0;
    assert(bytes[0] == 0x31);
    assert(d.header() == Some(g));
    assert(d.tag() == TAG_SET && d.constructed());
    assert(d.inner(g).remaining() =~= bytes.subrange(
        1 + der_length(content.len()).len() as int,
        bytes.len() as int,
    ));
}

impl Attribute {
    /// What [`Attribute::take_from`] returns on a cursor.
    pub open spec fn spec_take_from(c: CursorView) -> Result<
        (AttributeView, CursorView),
        DecodeError,
    > {
        match c.expect(TAG_SEQUENCE, true, Field::Attribute) {
            Err(e) => Err(e),
            Ok(h) => match Oid::spec_take_from(c.inner(h), Field::Attribute) {
                Err(e) => Err(e),
                Ok((oid, c1)) => match c1.expect(TAG_SET, true, Field::AttributeValue) {
                    Err(e) => Err(e),
                    Ok(values) => match c1.after(values).finish(Field::Attribute) {
                        Err(e) => Err(e),
                        Ok(_) => Ok((AttributeView { oid, value: c1.content(values) }, c.after(h))),
                    },
                },
            },
        }
    }

    /// Takes an Attribute from the cursor: a SEQUENCE of an OBJECT
    /// IDENTIFIER and a SET, whose content is kept as it stands. On an error
    /// the cursor stays where it was.
    pub fn take_from(cons: &mut Cursor) -> (r: Result<Attribute, DecodeError>)
        requires
            old(cons)@.wf(),
        ensures
            final(cons)@.wf(),
            match Attribute::spec_take_from(old(cons)@) {
                Ok((v, after)) => r matches Ok(a) && a@ == v && final(cons)@ == after,
                Err(e) => r == Err::<Attribute, DecodeError>(e) && final(cons)@ == old(cons)@,
            },
    {
        let e = cons.expect(TAG_SEQUENCE, true, Field::Attribute)?;
        let mut outer = *cons;
        let mut inner = outer.enter(&e);
        let oid = Oid::take_from(&mut inner, Field::Attribute)?;
        let values = inner.expect(TAG_SET, true, Field::AttributeValue)?;
        let value = inner.content(&values);
        inner.skip(&values);
        inner.finish(Field::Attribute)?;
        *cons = outer;
        Ok(Attribute { oid, value })
    }

    /// What [`Attribute::take_all`] returns on a cursor: the attributes that
    /// decode one after the other from the cursor on; then
    /// `TrailingGarbage` where no SEQUENCE is framed at an offset before the
    /// end, and the error of the element where one is framed and does not
    /// decode.
    pub open spec fn spec_take_all(c: CursorView) -> (Seq<AttributeView>, Option<DecodeError>)
        decreases c.end - c.pos,
    {
        if c.at_end() {
            (Seq::empty(), None)
        } else if c.expect(TAG_SEQUENCE, true, Field::AuthenticatedAttributes) is Err {
            (Seq::empty(), Some(c.error(ErrorKind::TrailingGarbage, Field::AuthenticatedAttributes)))
        } else {
            // Taking a value moves a cursor forward; the test on the
            // positions says so where the recursion is checked.
            match Attribute::spec_take_from(c) {
                Err(e) => (Seq::empty(), Some(e)),
                Ok((v, after)) => if c.pos < after.pos <= after.end == c.end {
                    let (rest, error) = Attribute::spec_take_all(after);
                    (seq![v] + rest, error)
                } else {
                    (seq![v], None)
                },
            }
        }
    }

    /// Takes attributes from the cursor until it is at its end or what is
    /// left does not decode as an attribute. The attributes that were taken
    /// are returned in either case.
    pub fn take_all(cons: &Cursor) -> (r: AttributeSet)
        requires
            cons@.wf(),
        ensures
            views(r.attributes@) == Attribute::spec_take_all(cons@).0,
            r.error == Attribute::spec_take_all(cons@).1,
    {
        let mut attributes: Vec<Attribute> = Vec::new();
        let mut cur = *cons;
        let mut error: Option<DecodeError> = None;
        assert(views(attributes@) =~= Seq::<AttributeView>::empty());
        while error.is_none() && !cur.at_end()
            invariant
                cur@.wf(),
                error is None ==> Attribute::spec_take_all(cons@).0 == views(attributes@)
                    + Attribute::spec_take_all(cur@).0,
                error is None ==> Attribute::spec_take_all(cons@).1 == Attribute::spec_take_all(
                    cur@,
                ).1,
                error is Some ==> Attribute::spec_take_all(cons@) == (views(attributes@), error),
            decreases (if error is None { 1int } else { 0int }), cur.end - cur.pos,
        {
            let ghost before = cur@;
            let ghost taken = views(attributes@);
            proof {
                lemma_header_extent(before);
            }
            match cur.expect(TAG_SEQUENCE, true, Field::AuthenticatedAttributes) {
                Err(_) => {
                    error = Some(
                        DecodeError {
                            kind: ErrorKind::TrailingGarbage,
                            field: Field::AuthenticatedAttributes,
                            offset: cur.pos,
                        },
                    );
                    assert(taken + Seq::<AttributeView>::empty() =~= taken);
                },
                Ok(_) => match Attribute::take_from(&mut cur) {
                    Ok(attribute) => {
                        proof {
                            lemma_views_push(attributes@, attribute);
                            assert(taken + (seq![attribute@] + Attribute::spec_take_all(cur@).0)
                                =~= taken.push(attribute@) + Attribute::spec_take_all(cur@).0);
                        }
                        attributes.push(attribute);
                    },
                    Err(e) => {
                        error = Some(e);
                        assert(taken + Seq::<AttributeView>::empty() =~= taken);
                    },
                },
            }
        }
        proof {
            if error is None {
                assert(views(attributes@) + Seq::<AttributeView>::empty() =~= views(attributes@));
            }
        }
        AttributeSet { attributes, error }
    }

    /// An attribute is read off the bytes that are left and the rules
    /// alone: from two cursors that read alike, either none is taken, or the
    /// same attribute is taken and the cursors read alike behind it.
    pub proof fn lemma_take_from_reads_like(x: CursorView, y: CursorView)
        requires
            x.reads_like(y),
        ensures
            Attribute::spec_take_from(x) is Ok <==> Attribute::spec_take_from(y) is Ok,
            Attribute::spec_take_from(x) matches Ok((v, ax)) ==> {
                &&& Attribute::spec_take_from(y) matches Ok((w, ay))
                &&& v == w
                &&& ax.reads_like(ay)
                &&& x.pos < ax.pos <= ax.end == x.end
                &&& y.pos < ay.pos <= ay.end == y.end
            },
    {
        lemma_reads_like(x, y);
        lemma_header_extent(x);
        lemma_header_extent(y);
        if x.header() is Some {
            let h = x.header()->Some_0;
            let xi = x.inner(h);
            let yi = y.inner(h);
            lemma_reads_like(xi, yi);
            if xi.header() is Some {
                let o = xi.header()->Some_0;
                let x1 = xi.after(o);
                let y1 = yi.after(o);
                lemma_reads_like(x1, y1);
                if x1.header() is Some {
                    let values = x1.header()->Some_0;
                    lemma_reads_like(x1.after(values), y1.after(values));
                }
            }
        }
    }

    /// A run of attributes is read off the bytes that are left and the
    /// rules alone: from two cursors that read alike, the same attributes
    /// are taken, and all of the run is taken from both or from neither.
    pub proof fn lemma_take_all_reads_like(x: CursorView, y: CursorView)
        requires
            x.reads_like(y),
        ensures
            Attribute::spec_take_all(x).0 == Attribute::spec_take_all(y).0,
            Attribute::spec_take_all(x).1 is None <==> Attribute::spec_take_all(y).1 is None,
        decreases x.end - x.pos,
    {
        lemma_reads_like(x, y);
        if !x.at_end() {
            Attribute::lemma_take_from_reads_like(x, y);
            if let Ok((v, ax)) = Attribute::spec_take_from(x) {
                let ay = Attribute::spec_take_from(y)->Ok_0.1;
                Attribute::lemma_take_all_reads_like(ax, ay);
            }
        }
    }

    /// This value as text: the type in dotted decimal notation and the
    /// value as a list of bytes.
    pub fn to_string(&self) -> (s: String)
        ensures
            s@ == self@.to_string(),
    {
        let mut s = String::from_str("Attribute {\n  oid: ");
        let oid = self.oid.to_string();
        s.append(oid.as_str());
        s.append(",\n  value: ");
        push_byte_list(&mut s, self.value.as_slice());
        s.append("\n}");
        assert(s@ =~= self@.to_string());
        s
    }
}

} // verus!
