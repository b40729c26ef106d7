//! The validity period of a certificate.

use crate::ber::TAG_SEQUENCE;
use crate::cursor::{Cursor, CursorView};
use crate::error::{DecodeError, ErrorKind, Field};
use crate::text::{push_signed_decimal, signed_decimal};
use crate::time::{utc_time_seconds, utc_time_to_timestamp};
use vstd::prelude::*;
use vstd::slice::slice_subrange;
use vstd::string::{StringExecFns, StringSliceAdditionalSpecFns};

verus! {

/// The time window of a certificate, each end in seconds since the Unix
/// epoch; an instant before 1970 is negative. Nothing says that the first
/// lies before the second.
#[derive(Clone, Copy, Debug, PartialEq, Eq, Structural)]
pub struct Validity {
    pub not_before: i64,
    pub not_after: i64,
}

/// What [`take_time`] returns on a cursor: the instant that the primitive
/// value at the cursor names and the cursor behind it.
pub open spec fn spec_take_time(c: CursorView, field: Field) -> Result<
    (i64, CursorView),
    DecodeError,
> {
    match c.expect_primitive(field) {
        Err(e) => Err(e),
        Ok(h) => match utc_time_seconds(c.content(h)) {
            Some(t) => Ok((t as i64, c.after(h))),
            None => Err(c.error(ErrorKind::InvalidTime, field)),
        },
    }
}

/// Takes a primitive value from the cursor and reads its content as a
/// UTCTime. On an error the cursor stays where it was.
pub fn take_time(cons: &mut Cursor, field: Field) -> (r: Result<i64, DecodeError>)
    requires
        old(cons)@.wf(),
    ensures
        final(cons)@.wf(),
        match spec_take_time(old(cons)@, field) {
            Ok((t, after)) => r == Ok::<i64, DecodeError>(t) && final(cons)@ == after,
            Err(e) => r == Err::<i64, DecodeError>(e) && final(cons)@ == old(cons)@,
        },
{
    let e = cons.expect_primitive(field)?;
    match utc_time_to_timestamp(slice_subrange(cons.data, e.content, e.end)) {
        Some(t) => {
            cons.skip(&e);
            Ok(t)
        },
        None => Err(DecodeError { kind: ErrorKind::InvalidTime, field, offset: cons.pos }),
    }
}

impl Validity {
    /// What [`Validity::take_from`] returns on a cursor.
    pub open spec fn spec_take_from(c: CursorView) -> Result<(Validity, CursorView), DecodeError> {
        match c.expect(TAG_SEQUENCE, true, Field::Validity) {
            Err(e) => Err(e),
            Ok(h) => match spec_take_time(c.inner(h), Field::NotBefore) {
                Err(e) => Err(e),
                Ok((not_before, c1)) => match spec_take_time(c1, Field::NotAfter) {
                    Err(e) => Err(e),
                    Ok((not_after, c2)) => match c2.finish(Field::Validity) {
                        Err(e) => Err(e),
                        Ok(_) => Ok((Validity { not_before, not_after }, c.after(h))),
                    },
                },
            },
        }
    }

    /// Takes a Validity from the cursor: a SEQUENCE of two times, the start
    /// of the window and then its end. On an error the cursor stays where it
    /// was.
    pub fn take_from(cons: &mut Cursor) -> (r: Result<Validity, DecodeError>)
        requires
            old(cons)@.wf(),
        ensures
            final(cons)@.wf(),
            match Validity::spec_take_from(old(cons)@) {
                Ok((v, after)) => r == Ok::<Validity, DecodeError>(v) && final(cons)@ == after,
                Err(e) => r == Err::<Validity, DecodeError>(e) && final(cons)@ == old(cons)@,
            },
    {
        let e = cons.expect(TAG_SEQUENCE, true, Field::Validity)?;
        let mut outer = *cons;
        let mut inner = outer.enter(&e);
        let not_before = take_time(&mut inner, Field::NotBefore)?;
        let not_after = take_time(&mut inner, Field::NotAfter)?;
        inner.finish(Field::Validity)?;
        *cons = outer;
        Ok(Validity { not_before, not_after })
    }

    /// Converts a UTCTime string to seconds since the Unix epoch.
    ///
    /// Succeeds exactly on the strings of the form `YYMMDDHHMMSSZ` that name
    /// an instant; a year below 50 lies in 2000 to 2049, another in 1950 to
    /// 1999.
    pub fn parse_asn1_to_timestamp(date_str: &str) -> (r: Result<i64, DecodeError>)
        ensures
            match utc_time_seconds(date_str.spec_bytes()) {
                Some(t) => r matches Ok(v) && v == t,
                None => r == Err::<i64, DecodeError>(
                    DecodeError { kind: ErrorKind::InvalidTime, field: Field::Validity, offset: 0 },
                ),
            },
    {
        match utc_time_to_timestamp(date_str.as_bytes()) {
            Some(t) => Ok(t),
            None => Err(
                DecodeError { kind: ErrorKind::InvalidTime, field: Field::Validity, offset: 0 },
            ),
        }
    }

    /// The text of this value.
    pub open spec fn spec_to_string(self) -> Seq<char> {
        "Validity {\n    not_before: "@ + signed_decimal(self.not_before as int)
            + ",\n    not_after: "@ + signed_decimal(self.not_after as int) + "\n  }"@
    }

    /// This value as text: both instants in decimal.
    pub fn to_string(&self) -> (s: String)
        ensures
            s@ == self.spec_to_string(),
    {
        let mut s = String::from_str("Validity {\n    not_before: ");
        push_signed_decimal(&mut s, self.not_before);
        s.append(",\n    not_after: ");
        push_signed_decimal(&mut s, self.not_after);
        s.append("\n  }");
        assert(s@ =~= self.spec_to_string());
        s
    }
}

} // verus!
