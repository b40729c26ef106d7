//! The content of primitive values: small integers and bit strings.

use crate::ber::{TAG_BIT_STRING, TAG_INTEGER};
use crate::cursor::{Cursor, CursorView};
use crate::error::{DecodeError, ErrorKind, Field};
use bcder::decode::Primitive;
use vstd::prelude::*;
use vstd::slice::slice_subrange;

verus! {

/// The number in 0..=255 that `content` encodes as an INTEGER in the fewest
/// octets: one octet below 0x80, or a zero octet and one from 0x80 on.
pub open spec fn small_integer(content: Seq<u8>) -> Option<u8> {
    if content.len() == 1 && content[0] < 0x80 {
        Some(content[0])
    } else if content.len() == 2 && content[0] == 0 && content[1] >= 0x80 {
        Some(content[1])
    } else {
        None
    }
}

/// Calls `bcder::decode::Primitive::decode_slice` on `content` with
/// `Primitive::to_u8`.
///
/// Trusted: the call accepts the content of an INTEGER that is not
/// negative, uses no more octets than it needs and fits in eight bits, and
/// returns its value.
#[verifier::external_body]
fn bcder_to_u8(content: &[u8]) -> (r: Option<u8>)
    ensures
        r == small_integer(content@),
{
    Primitive::decode_slice(content, bcder::Mode::Ber, |prim| prim.to_u8()).ok()
}

/// What [`take_u8`] returns on a cursor: the number that the INTEGER at the
/// cursor holds and the cursor behind it.
pub open spec fn spec_take_u8(c: CursorView, field: Field) -> Result<(u8, CursorView), DecodeError> {
    match c.expect(TAG_INTEGER, false, field) {
        Err(e) => Err(e),
        Ok(h) => match small_integer(c.content(h)) {
            Some(n) => Ok((n, c.after(h))),
            None => Err(c.error(ErrorKind::InvalidInteger, field)),
        },
    }
}

/// Takes an INTEGER in 0..=255 from the cursor. On an error the cursor stays
/// where it was.
pub fn take_u8(cons: &mut Cursor, field: Field) -> (r: Result<u8, DecodeError>)
    requires
        old(cons)@.wf(),
    ensures
        final(cons)@.wf(),
        match spec_take_u8(old(cons)@, field) {
            Ok((n, after)) => r == Ok::<u8, DecodeError>(n) && final(cons)@ == after,
            Err(e) => r == Err::<u8, DecodeError>(e) && final(cons)@ == old(cons)@,
        },
{
    let e = cons.expect(TAG_INTEGER, false, field)?;
    match bcder_to_u8(slice_subrange(cons.data, e.content, e.end)) {
        Some(n) => {
            cons.skip(&e);
            Ok(n)
        },
        None => Err(DecodeError { kind: ErrorKind::InvalidInteger, field, offset: cons.pos }),
    }
}

/// What [`take_bit_string`] returns on a cursor: the cursor over the octets
/// that hold the bits of the BIT STRING at the cursor, and the cursor behind
/// the string.
pub open spec fn spec_take_bit_string(c: CursorView, field: Field) -> Result<
    (CursorView, CursorView),
    DecodeError,
> {
    match c.expect(TAG_BIT_STRING, false, field) {
        Err(e) => Err(e),
        Ok(h) => if h.content_len == 0 || c.data[c.pos + h.header_len()] != 0 {
            Err(c.error(ErrorKind::InvalidBitString, field))
        } else {
            Ok(
                (
                    CursorView {
                        data: c.data,
                        pos: c.pos + h.header_len() + 1,
                        end: c.pos + h.extent(),
                        mode: c.mode,
                    },
                    c.after(h),
                ),
            )
        },
    }
}

/// Takes a primitive BIT STRING from the cursor and returns the cursor over
/// the octets behind its count of unused bits. That count must be there and
/// must be zero. On an error the cursor stays where it was.
pub fn take_bit_string<'a>(cons: &mut Cursor<'a>, field: Field) -> (r: Result<
    Cursor<'a>,
    DecodeError,
>)
    requires
        old(cons)@.wf(),
    ensures
        final(cons)@.wf(),
        match spec_take_bit_string(old(cons)@, field) {
            Ok((bits, after)) => r matches Ok(b) && b@ == bits && b@.wf() && final(cons)@ == after,
            Err(e) => r == Err::<Cursor<'a>, DecodeError>(e) && final(cons)@ == old(cons)@,
        },
{
    let e = cons.expect(TAG_BIT_STRING, false, field)?;
    if e.content == e.end || cons.data[e.content] != 0 {
        return Err(DecodeError { kind: ErrorKind::InvalidBitString, field, offset: cons.pos });
    }
    let bits = Cursor { data: cons.data, pos: e.content + 1, end: e.end, mode: cons.mode };
    cons.skip(&e);
    Ok(bits)
}

} // verus!
