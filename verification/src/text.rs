//! Numbers and byte strings as text.

use crate::model::optional_bytes;
use vstd::prelude::*;
use vstd::string::StringExecFns;

verus! {

/// The character of the decimal digit `d`.
pub open spec fn digit_char(d: nat) -> char {
    (48 + d) as char
}

/// `n` in decimal, without leading zeros.
pub open spec fn decimal(n: nat) -> Seq<char>
    decreases n,
{
    if n < 10 {
        seq![digit_char(n)]
    } else {
        decimal(n / 10).push(digit_char(n % 10))
    }
}

/// `n` in decimal, with a minus sign in front of a negative number.
pub open spec fn signed_decimal(n: int) -> Seq<char> {
    if n < 0 {
        seq!['-'] + decimal((-n) as nat)
    } else {
        decimal(n as nat)
    }
}

/// The elements of `bytes` from index `from` on, each in decimal, with a
/// comma and a space in front of each but the one at index 0.
pub open spec fn byte_items(bytes: Seq<u8>, from: int) -> Seq<char>
    decreases bytes.len() - from,
{
    if from < 0 || from >= bytes.len() {
        Seq::empty()
    } else if from == 0 {
        decimal(bytes[from] as nat) + byte_items(bytes, from + 1)
    } else {
        seq![',', ' '] + decimal(bytes[from] as nat) + byte_items(bytes, from + 1)
    }
}

/// `bytes` as a bracketed list of decimal numbers: `[1, 2, 3]`.
pub open spec fn byte_list(bytes: Seq<u8>) -> Seq<char> {
    seq!['['] + byte_items(bytes, 0) + seq![']']
}

/// `bytes` as `Some([..])`, or `None`.
pub open spec fn optional_byte_list(bytes: Option<Seq<u8>>) -> Seq<char> {
    match bytes {
        Some(b) => "Some("@ + byte_list(b) + ")"@,
        None => "None"@,
    }
}

/// `n` as `Some(n)`, or `None`.
pub open spec fn optional_number(n: Option<u8>) -> Seq<char> {
    match n {
        Some(v) => "Some("@ + decimal(v as nat) + ")"@,
        None => "None"@,
    }
}

/// `s` between double quotes.
pub open spec fn quoted(s: Seq<char>) -> Seq<char> {
    seq!['"'] + s + seq!['"']
}

/// The character of the hexadecimal digit `d`, in lower case.
pub open spec fn hex_digit(d: nat) -> char {
    if d < 10 {
        (48 + d) as char
    } else {
        (87 + d) as char
    }
}

/// `bytes` in hexadecimal: two lower-case digits for each byte, the high
/// half first.
pub open spec fn hex_lower(bytes: Seq<u8>) -> Seq<char> {
    Seq::new(
        2 * bytes.len(),
        |i: int|
            if i % 2 == 0 {
                hex_digit((bytes[i / 2] / 16) as nat)
            } else {
                hex_digit((bytes[i / 2] % 16) as nat)
            },
    )
}

/// Calls `hex::encode` on `bytes`.
///
/// Trusted: the text holds two digits for each byte, the high half first,
/// taken from `0123456789abcdef`.
#[verifier::external_body]
pub(crate) fn hex_encode(bytes: &[u8]) -> (s: String)
    ensures
        s@ == hex_lower(bytes@),
{
    hex::encode(bytes)
}

/// The text of one decimal digit.
fn digit_str(d: u8) -> (s: &'static str)
    requires
        d < 10,
    ensures
        s@ == seq![digit_char(d as nat)],
{
    proof {
        reveal_strlit("0");
        reveal_strlit("1");
        reveal_strlit("2");
        reveal_strlit("3");
        reveal_strlit("4");
        reveal_strlit("5");
        reveal_strlit("6");
        reveal_strlit("7");
        reveal_strlit("8");
        reveal_strlit("9");
    }
    let s = match d {
        0 => "0",
        1 => "1",
        2 => "2",
        3 => "3",
        4 => "4",
        5 => "5",
        6 => "6",
        7 => "7",
        8 => "8",
        _ => "9",
    };
    assert(s@ =~= seq![digit_char(d as nat)]);
    s
}

/// Appends `n` in decimal to `out`.
pub fn push_decimal(out: &mut String, n: u64)
    ensures
        final(out)@ == old(out)@ + decimal(n as nat),
    decreases n,
{
    if n >= 10 {
        push_decimal(out, n / 10);
    }
    out.append(digit_str((n % 10) as u8));
    assert(final(out)@ =~= old(out)@ + decimal(n as nat));
}

/// Appends `n` in decimal, with its sign, to `out`.
pub fn push_signed_decimal(out: &mut String, n: i64)
    ensures
        final(out)@ == old(out)@ + signed_decimal(n as int),
{
    if n < 0 {
        proof {
            reveal_strlit("-");
        }
        out.append("-");
        let magnitude: i128 = -(n as i128);
        push_decimal(out, magnitude as u64);
        assert(final(out)@ =~= old(out)@ + signed_decimal(n as int));
    } else {
        push_decimal(out, n as u64);
    }
}

/// Appends `bytes` as a bracketed list of decimal numbers to `out`.
pub fn push_byte_list(out: &mut String, bytes: &[u8])
    ensures
        final(out)@ == old(out)@ + byte_list(bytes@),
{
    proof {
        reveal_strlit("[");
        reveal_strlit("]");
    }
    out.append("[");
    let ghost start = out@;
    let mut i: usize = 0;
    while i < bytes.len()
        invariant
            0 <= i <= bytes.len(),
            out@ + byte_items(bytes@, i as int) == start + byte_items(bytes@, 0),
        decreases bytes.len() - i,
    {
        let ghost before = out@;
        if i > 0 {
            out.append(", ");
        }
        push_decimal(out, bytes[i] as u64);
        assert(out@ + byte_items(bytes@, i + 1) =~= before + byte_items(bytes@, i as int)) by {
            reveal_strlit(", ");
            assert(", "@ =~= seq![',', ' ']);
        }
        i += 1;
    }
    assert(byte_items(bytes@, i as int) =~= Seq::<char>::empty());
    out.append("]");
    assert(final(out)@ =~= old(out)@ + byte_list(bytes@));
}

/// Appends `bytes` as `Some([..])`, or `None`, to `out`.
pub fn push_optional_byte_list(out: &mut String, bytes: &Option<Vec<u8>>)
    ensures
        final(out)@ == old(out)@ + optional_byte_list(optional_bytes(*bytes)),
{
    match bytes {
        Some(b) => {
            out.append("Some(");
            push_byte_list(out, b.as_slice());
            out.append(")");
            assert(final(out)@ =~= old(out)@ + ("Some("@ + byte_list(b@) + ")"@));
        },
        None => {
            out.append("None");
        },
    }
}

/// Appends `n` as `Some(n)`, or `None`, to `out`.
pub fn push_optional_number(out: &mut String, n: Option<u8>)
    ensures
        final(out)@ == old(out)@ + optional_number(n),
{
    match n {
        Some(v) => {
            out.append("Some(");
            push_decimal(out, v as u64);
            out.append(")");
            assert(final(out)@ =~= old(out)@ + ("Some("@ + decimal(v as nat) + ")"@));
        },
        None => {
            out.append("None");
        },
    }
}

/// Appends `s` between double quotes to `out`.
pub fn push_quoted(out: &mut String, s: &str)
    ensures
        final(out)@ == old(out)@ + quoted(s@),
{
    proof {
        reveal_strlit("\"");
    }
    out.append("\"");
    out.append(s);
    out.append("\"");
    assert(final(out)@ =~= old(out)@ + quoted(s@));
}

} // verus!
