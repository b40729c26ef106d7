//! Framing of BER values.
//!
//! A value on the wire is a run of identifier octets, a run of length
//! octets and as many content octets as the length says. This module states
//! that layout as spec functions, reads headers with `bcder`, and checks
//! that the content they declare is there.

use bcder::decode::{Constructed, SliceSource};
use vstd::prelude::*;
use vstd::slice::{slice_subrange, slice_to_vec};

verus! {

/// The encoding rules a value is read under.
#[derive(Clone, Copy, Debug, PartialEq, Eq, Structural)]
pub enum Mode {
    /// Basic Encoding Rules: a length may use more octets than it needs.
    Ber,
    /// Distinguished Encoding Rules: a length uses the fewest octets.
    Der,
}

/// The tag of a SEQUENCE or SEQUENCE OF.
pub const TAG_SEQUENCE: u8 = 0x10;

/// The tag of a SET or SET OF.
pub const TAG_SET: u8 = 0x11;

/// The tag of an INTEGER.
pub const TAG_INTEGER: u8 = 0x02;

/// The tag of a BIT STRING.
pub const TAG_BIT_STRING: u8 = 0x03;

/// The tag of an OBJECT IDENTIFIER.
pub const TAG_OID: u8 = 0x06;

/// The context-specific tag `[0]`.
pub const TAG_CTX_0: u8 = 0x80;

/// The context-specific tag `[1]`.
pub const TAG_CTX_1: u8 = 0x81;

/// The most octets that a header takes: four of identifier, five of length.
pub const MAX_HEADER_LEN: usize = 9;

/// Whether a leading identifier octet announces a constructed value.
pub open spec fn is_constructed(identifier: u8) -> bool {
    (identifier / 32) % 2 == 1
}

/// The tag that a leading identifier octet carries: the octet with the
/// constructed bit cleared, class in the two top bits and number in the five
/// low ones. A number of 31 stands for every tag in high-tag-number form.
pub open spec fn tag_of(identifier: u8) -> u8 {
    if is_constructed(identifier) {
        (identifier - 32) as u8
    } else {
        identifier
    }
}

/// How many octets the identifier, the length and the content of a value
/// take.
pub struct Header {
    pub id_len: nat,
    pub len_len: nat,
    pub content_len: nat,
}

impl Header {
    /// Octets in front of the content.
    pub open spec fn header_len(self) -> nat {
        self.id_len + self.len_len
    }

    /// Octets of the whole value.
    pub open spec fn extent(self) -> nat {
        self.id_len + self.len_len + self.content_len
    }
}

/// The number of identifier octets at the start of `s`: one in low-tag-number
/// form, two to four in high-tag-number form, where each octet but the last
/// has its top bit set. `None` where `s` ends first or the form runs longer.
pub open spec fn identifier_len(s: Seq<u8>) -> Option<nat> {
    if s.len() == 0 {
        None
    } else if s[0] % 32 != 31 {
        Some(1)
    } else if s.len() >= 2 && s[1] < 0x80 {
        Some(2)
    } else if s.len() >= 3 && s[2] < 0x80 {
        Some(3)
    } else if s.len() >= 4 && s[3] < 0x80 {
        Some(4)
    } else {
        None
    }
}

/// The number that the octets of `s` spell, most significant first.
pub open spec fn big_endian(s: Seq<u8>) -> nat
    decreases s.len(),
{
    if s.len() == 0 {
        0
    } else {
        big_endian(s.drop_last()) * 256 + s.last() as nat
    }
}

/// The definite length that starts at index `at` of `s`, as the number of
/// length octets and the length they give. In short form one octet below
/// 0x80 is the length. In long form the first octet is 0x81 to 0x84 and
/// announces one to four octets that spell the length. `None` for any other
/// first octet (0x80 announces the indefinite form) and where `s` ends first.
pub open spec fn length_octets(s: Seq<u8>, at: int) -> Option<(nat, nat)> {
    if at < 0 || at >= s.len() {
        None
    } else if s[at] < 0x80 {
        Some((1, s[at] as nat))
    } else if s[at] == 0x80 || s[at] > 0x84 {
        None
    } else {
        let n = s[at] - 0x80;
        if at + n >= s.len() {
            None
        } else {
            Some(((1 + n) as nat, big_endian(s.subrange(at + 1, at + 1 + n))))
        }
    }
}

/// The header of the definite-length value that starts `s`.
pub open spec fn header_of(s: Seq<u8>) -> Option<Header> {
    match identifier_len(s) {
        None => None,
        Some(id_len) => match length_octets(s, id_len as int) {
            None => None,
            Some((len_len, content_len)) => Some(Header { id_len, len_len, content_len }),
        },
    }
}

/// Whether the length octets of the header `h` of `s` are the fewest that
/// spell the length: the short form, or a long form whose length does not
/// fit in fewer octets.
pub open spec fn shortest_length(s: Seq<u8>, h: Header) -> bool {
    let first = s[h.id_len as int];
    if first < 0x80 {
        true
    } else if first == 0x81 {
        h.content_len > 0x7F
    } else if first == 0x82 {
        h.content_len > 0xFF
    } else if first == 0x83 {
        h.content_len > 0xFFFF
    } else {
        h.content_len > 0xFF_FFFF
    }
}

/// The header that `bcder` reads in front of a primitive value at the start
/// of `s`: a header of definite length on an identifier that is not
/// constructed and not the octet 0, which marks the end of a value of
/// indefinite length; under the distinguished rules its length octets are
/// the fewest.
pub open spec fn primitive_header(s: Seq<u8>, mode: Mode) -> Option<Header> {
    match header_of(s) {
        Some(h) => if is_constructed(s[0]) || s[0] == 0 || (mode is Der && !shortest_length(s, h)) {
            None
        } else {
            Some(h)
        },
        None => None,
    }
}

/// `s` with the constructed bit of its first octet cleared.
pub open spec fn primitive_form(s: Seq<u8>) -> Seq<u8> {
    if s.len() > 0 && is_constructed(s[0]) {
        s.update(0, (s[0] - 32) as u8)
    } else {
        s
    }
}

/// The header of the first value of `input`, where one is framed there
/// under `mode`: the header is of definite length, its tag is not the
/// universal tag 0, under the distinguished rules its length octets are the
/// fewest, and the content that it declares lies within `input`.
pub open spec fn first_value(input: Seq<u8>, mode: Mode) -> Option<Header> {
    match header_of(input) {
        Some(h) => if tag_of(input[0]) == 0 || (mode is Der && !shortest_length(input, h))
            || h.extent() > input.len() {
            None
        } else {
            Some(h)
        },
        None => None,
    }
}

/// Calls `bcder::decode::Constructed::decode` on `header` and, in it,
/// `take_primitive`, which hands over the content once it has read the tag
/// and the length; the length that the content declares is taken from
/// `Primitive::remaining`, and the number of bytes behind the header from
/// `SliceSource::len`. The content itself is not read, so whether the call
/// ends well is of no account.
///
/// Trusted: the content is handed over exactly where `header` starts with a
/// tag of at most four octets that is neither constructed nor the octet 0,
/// and a definite length of at most five octets, which under the
/// distinguished rules are the fewest; the source then stands behind the
/// length octets.
#[verifier::external_body]
fn bcder_primitive_header(header: &[u8], mode: Mode) -> (r: Option<(usize, usize)>)
    ensures
        match primitive_header(header@, mode) {
            Some(h) => r == Some(
                (h.content_len as usize, (header@.len() - h.header_len()) as usize),
            ),
            None => r is None,
        },
{
    let mut source = SliceSource::new(header);
    let mode = match mode {
        Mode::Ber => bcder::Mode::Ber,
        Mode::Der => bcder::Mode::Der,
    };
    let mut declared = None;
    let _ = Constructed::decode(&mut source, mode, |cons| {
        cons.take_primitive(|_, content| {
            declared = Some(content.remaining());
            Ok(())
        })
    });
    declared.map(|length| (length, source.len()))
}

/// The octets of a run spell a number below 256 to the length of the run.
pub proof fn lemma_big_endian_bound(s: Seq<u8>)
    ensures
        s.len() <= 1 ==> big_endian(s) < 0x100,
        s.len() <= 2 ==> big_endian(s) < 0x1_0000,
        s.len() <= 3 ==> big_endian(s) < 0x100_0000,
        s.len() <= 4 ==> big_endian(s) < 0x1_0000_0000,
    decreases s.len(),
{
    if s.len() > 0 {
        lemma_big_endian_bound(s.drop_last());
    }
}

/// A header takes one to four octets of identifier and one to five of
/// length, all of which are there, and declares a length below 2 to the 32.
pub proof fn lemma_header_bounds(s: Seq<u8>)
    ensures
        header_of(s) matches Some(h) ==> 1 <= h.id_len <= 4 && 1 <= h.len_len <= 5
            && h.header_len() <= s.len() && h.content_len < 0x1_0000_0000,
{
    if header_of(s) is Some {
        let h = header_of(s)->Some_0;
        let at = h.id_len as int;
        if s[at] >= 0x80 {
            let n = s[at] - 0x80;
            lemma_big_endian_bound(s.subrange(at + 1, at + 1 + n));
        }
    }
}

/// A header is read off its own octets alone: a buffer that is cut behind
/// the header of its first value declares the same header, and one that is
/// cut within that header declares none.
pub proof fn lemma_header_of_prefix(s: Seq<u8>, cut: int)
    requires
        header_of(s) is Some,
        0 <= cut <= s.len(),
    ensures
        cut >= header_of(s)->Some_0.header_len() ==> header_of(s.subrange(0, cut)) == header_of(s),
        cut < header_of(s)->Some_0.header_len() ==> header_of(s.subrange(0, cut)) is None,
{
    let h = header_of(s)->Some_0;
    let t = s.subrange(0, cut);
    let at = h.id_len as int;
    if cut >= h.header_len() {
        assert(identifier_len(t) == identifier_len(s));
        if s[at] >= 0x80 {
            let n = s[at] - 0x80;
            assert(t.subrange(at + 1, at + 1 + n) =~= s.subrange(at + 1, at + 1 + n));
        }
    } else {
        if identifier_len(t) is Some {
            assert(identifier_len(t) == identifier_len(s));
        }
    }
}

/// The header that the start of a buffer declares is the header that the
/// buffer declares.
pub proof fn lemma_header_of_extension(s: Seq<u8>, cut: int)
    requires
        0 <= cut <= s.len(),
        header_of(s.subrange(0, cut)) is Some,
    ensures
        header_of(s) == header_of(s.subrange(0, cut)),
{
    let t = s.subrange(0, cut);
    let h = header_of(t)->Some_0;
    let at = h.id_len as int;
    assert(identifier_len(s) == identifier_len(t));
    if t[at] >= 0x80 {
        let n = t[at] - 0x80;
        assert(t.subrange(at + 1, at + 1 + n) =~= s.subrange(at + 1, at + 1 + n));
    }
}

/// The constructed bit of the first octet has no part in the header.
pub proof fn lemma_header_of_primitive_form(s: Seq<u8>)
    ensures
        header_of(primitive_form(s)) == header_of(s),
{
    let p = primitive_form(s);
    if s.len() > 0 && is_constructed(s[0]) {
        assert(identifier_len(p) == identifier_len(s));
        if identifier_len(s) is Some {
            let at = identifier_len(s)->Some_0 as int;
            if at < s.len() && s[at] >= 0x80 {
                let n = s[at] - 0x80;
                if at + n < s.len() {
                    assert(p.subrange(at + 1, at + 1 + n) =~= s.subrange(at + 1, at + 1 + n));
                }
            }
        }
    }
}

/// Where the first value of a buffer lies: the number of octets in front of
/// its content, and the number of content octets.
#[derive(Clone, Copy, Debug, PartialEq, Eq)]
pub struct Frame {
    pub header_len: usize,
    pub content_len: usize,
}

/// Frames the first value of `input` under `mode`. The header is read off
/// the first octets of `input`, as a primitive header whatever the form of
/// the value, so that the content is not read.
pub fn read_first(input: &[u8], mode: Mode) -> (r: Option<Frame>)
    ensures
        match first_value(input@, mode) {
            Some(h) => r matches Some(f) && f.header_len == h.header_len() && f.content_len
                == h.content_len,
            None => r is None,
        },
{
    let len = input.len();
    if len == 0 {
        return None;
    }
    let cut = if len < MAX_HEADER_LEN {
        len
    } else {
        MAX_HEADER_LEN
    };
    let mut probe = slice_to_vec(slice_subrange(input, 0, cut));
    let identifier = input[0];
    if (identifier / 32) % 2 == 1 {
        probe.set(0, identifier - 32);
    }
    proof {
        let start = input@.subrange(0, cut as int);
        assert(probe@ =~= primitive_form(start));
        lemma_header_of_primitive_form(start);
        lemma_header_bounds(input@);
        lemma_header_bounds(start);
        if header_of(input@) is Some {
            lemma_header_of_prefix(input@, cut as int);
        }
        if header_of(start) is Some {
            lemma_header_of_extension(input@, cut as int);
        }
        assert(header_of(probe@) == header_of(input@));
    }
    match bcder_primitive_header(probe.as_slice(), mode) {
        None => None,
        Some((content_len, rest)) => {
            let header_len = cut - rest;
            if content_len > len - header_len {
                None
            } else {
                Some(Frame { header_len, content_len })
            }
        },
    }
}

/// No first value is read off a buffer that ends before the end that the
/// header of its first value declares.
pub proof fn lemma_short_buffer_has_no_first_value(s: Seq<u8>, cut: int, mode: Mode)
    requires
        header_of(s) matches Some(h) && 0 <= cut < h.extent(),
        cut <= s.len(),
    ensures
        first_value(s.subrange(0, cut), mode) is None,
{
    lemma_header_of_prefix(s, cut);
}

} // verus!
