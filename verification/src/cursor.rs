//! A cursor over the values of a buffer.
//!
//! A cursor stands at an offset of a buffer and may read up to an end
//! offset: the whole buffer, or the content of a constructed value that was
//! entered. Reading never looks past that end.

use crate::ber::{first_value, is_constructed, read_first, tag_of, Frame, Header, Mode};
use crate::error::{DecodeError, ErrorKind, Field};
use vstd::prelude::*;
use vstd::slice::{slice_subrange, slice_to_vec};

verus! {

/// A position in a buffer, the end of what may be read, and the rules to
/// read under.
#[derive(Clone, Copy, Debug)]
pub struct Cursor<'a> {
    pub data: &'a [u8],
    pub pos: usize,
    pub end: usize,
    pub mode: Mode,
}

/// The mathematical value of a [`Cursor`].
pub struct CursorView {
    pub data: Seq<u8>,
    pub pos: int,
    pub end: int,
    pub mode: Mode,
}

impl<'a> View for Cursor<'a> {
    type V = CursorView;

    open spec fn view(&self) -> CursorView {
        CursorView { data: self.data@, pos: self.pos as int, end: self.end as int, mode: self.mode }
    }
}

/// A value that a cursor has framed: its tag, whether it is constructed, and
/// the offsets of its first octet, of its content and of its end.
#[derive(Clone, Copy, Debug)]
pub struct Element {
    pub tag: u8,
    pub constructed: bool,
    pub start: usize,
    pub content: usize,
    pub end: usize,
}

impl Element {
    /// This element is the value with header `h` at the position of `c`.
    pub open spec fn frames(self, c: CursorView, h: Header) -> bool {
        &&& self.tag == c.tag()
        &&& self.constructed == c.constructed()
        &&& self.start == c.pos
        &&& self.content == c.pos + h.header_len()
        &&& self.end == c.pos + h.extent()
    }
}

impl CursorView {
    /// The cursor lies within its buffer, and the buffer fits in memory.
    pub open spec fn wf(self) -> bool {
        0 <= self.pos <= self.end <= self.data.len() <= usize::MAX
    }

    /// The cursor over all of `data`.
    pub open spec fn over(data: Seq<u8>, mode: Mode) -> CursorView {
        CursorView { data, pos: 0, end: data.len() as int, mode }
    }

    /// The bytes that are left to read.
    pub open spec fn remaining(self) -> Seq<u8> {
        self.data.subrange(self.pos, self.end)
    }

    /// Nothing is left to read.
    pub open spec fn at_end(self) -> bool {
        self.pos >= self.end
    }

    /// The header of the value at the cursor, where one is framed there.
    pub open spec fn header(self) -> Option<Header> {
        first_value(self.remaining(), self.mode)
    }

    /// The tag of the value at the cursor.
    pub open spec fn tag(self) -> u8 {
        tag_of(self.data[self.pos])
    }

    /// Whether the value at the cursor is constructed.
    pub open spec fn constructed(self) -> bool {
        is_constructed(self.data[self.pos])
    }

    /// The cursor over the content of the value with header `h`.
    pub open spec fn inner(self, h: Header) -> CursorView {
        CursorView {
            data: self.data,
            pos: self.pos + h.header_len(),
            end: self.pos + h.extent(),
            mode: self.mode,
        }
    }

    /// The cursor behind the value with header `h`.
    pub open spec fn after(self, h: Header) -> CursorView {
        CursorView { data: self.data, pos: self.pos + h.extent(), end: self.end, mode: self.mode }
    }

    /// The cursor at its end.
    pub open spec fn finished(self) -> CursorView {
        CursorView { data: self.data, pos: self.end, end: self.end, mode: self.mode }
    }

    /// The same range of the same buffer, read under `mode`.
    pub open spec fn with_mode(self, mode: Mode) -> CursorView {
        CursorView { data: self.data, pos: self.pos, end: self.end, mode }
    }

    /// The content octets of the value with header `h`.
    pub open spec fn content(self, h: Header) -> Seq<u8> {
        self.data.subrange(self.pos + h.header_len(), self.pos + h.extent())
    }

    /// All octets of the value with header `h`.
    pub open spec fn encoded(self, h: Header) -> Seq<u8> {
        self.data.subrange(self.pos, self.pos + h.extent())
    }

    /// This cursor and `other` have the same bytes left to read, under the
    /// same rules, whatever buffers they stand in and at whatever offsets.
    pub open spec fn reads_like(self, other: CursorView) -> bool {
        &&& self.wf()
        &&& other.wf()
        &&& self.mode == other.mode
        &&& self.remaining() == other.remaining()
    }

    /// The error of `kind` for `field` at the cursor.
    pub open spec fn error(self, kind: ErrorKind, field: Field) -> DecodeError {
        DecodeError { kind, field, offset: self.pos as usize }
    }

    /// The value at the cursor: `MissingValue` at the end, `Malformed` where
    /// no value is framed.
    pub open spec fn next(self, field: Field) -> Result<Header, DecodeError> {
        if self.at_end() {
            Err(self.error(ErrorKind::MissingValue, field))
        } else {
            match self.header() {
                Some(h) => Ok(h),
                None => Err(self.error(ErrorKind::Malformed, field)),
            }
        }
    }

    /// The value at the cursor, which must carry `tag` in the given form:
    /// `UnexpectedTag` otherwise.
    pub open spec fn expect(self, tag: u8, constructed: bool, field: Field) -> Result<
        Header,
        DecodeError,
    > {
        match self.next(field) {
            Err(e) => Err(e),
            Ok(h) => if self.tag() == tag && self.constructed() == constructed {
                Ok(h)
            } else {
                Err(self.error(ErrorKind::UnexpectedTag, field))
            },
        }
    }

    /// The value at the cursor if it carries `tag`; absent at the end and
    /// where another tag stands. `UnexpectedTag` where the tag stands on a
    /// value of the other form.
    pub open spec fn expect_opt(self, tag: u8, constructed: bool, field: Field) -> Result<
        Option<Header>,
        DecodeError,
    > {
        if self.at_end() {
            Ok(None)
        } else {
            match self.header() {
                None => Err(self.error(ErrorKind::Malformed, field)),
                Some(h) => if self.tag() != tag {
                    Ok(None)
                } else if self.constructed() != constructed {
                    Err(self.error(ErrorKind::UnexpectedTag, field))
                } else {
                    Ok(Some(h))
                },
            }
        }
    }

    /// A primitive value of any tag at the cursor.
    pub open spec fn expect_primitive(self, field: Field) -> Result<Header, DecodeError> {
        match self.next(field) {
            Err(e) => Err(e),
            Ok(h) => if self.constructed() {
                Err(self.error(ErrorKind::UnexpectedTag, field))
            } else {
                Ok(h)
            },
        }
    }

    /// Nothing is left: `TrailingData` otherwise.
    pub open spec fn finish(self, field: Field) -> Result<(), DecodeError> {
        if self.at_end() {
            Ok(())
        } else {
            Err(self.error(ErrorKind::TrailingData, field))
        }
    }
}

impl<'a> Cursor<'a> {
    /// A cursor over all of `data`.
    pub fn new(data: &'a [u8], mode: Mode) -> (c: Cursor<'a>)
        ensures
            c@ == CursorView::over(data@, mode),
            c@.wf(),
    {
        Cursor { data, pos: 0, end: data.len(), mode }
    }

    /// Whether nothing is left to read.
    pub fn at_end(&self) -> (b: bool)
        ensures
            b == self@.at_end(),
    {
        self.pos >= self.end
    }

    /// The same range of the same buffer, to be read under `mode`.
    pub fn with_mode(&self, mode: Mode) -> (c: Cursor<'a>)
        ensures
            c@ == self@.with_mode(mode),
    {
        Cursor { data: self.data, pos: self.pos, end: self.end, mode }
    }

    /// The element that a frame describes at the cursor: `MissingValue`
    /// where the cursor is at its end, `Malformed` where there is no frame.
    pub fn element_of(&self, frame: Option<Frame>, field: Field) -> (r: Result<
        Element,
        DecodeError,
    >)
        requires
            self@.wf(),
            frame matches Some(f) ==> self.pos + f.header_len + f.content_len <= self.end,
        ensures
            r == (if self@.at_end() {
                Err::<Element, DecodeError>(self@.error(ErrorKind::MissingValue, field))
            } else {
                match frame {
                    None => Err(self@.error(ErrorKind::Malformed, field)),
                    Some(f) => Ok(
                        Element {
                            tag: self@.tag(),
                            constructed: self@.constructed(),
                            start: self.pos,
                            content: (self.pos + f.header_len) as usize,
                            end: (self.pos + f.header_len + f.content_len) as usize,
                        },
                    ),
                }
            }),
    {
        if self.pos >= self.end {
            return Err(DecodeError { kind: ErrorKind::MissingValue, field, offset: self.pos });
        }
        match frame {
            None => Err(DecodeError { kind: ErrorKind::Malformed, field, offset: self.pos }),
            Some(f) => {
                let identifier = self.data[self.pos];
                let constructed = (identifier / 32) % 2 == 1;
                let tag = if constructed {
                    identifier - 32
                } else {
                    identifier
                };
                let content = self.pos + f.header_len;
                Ok(
                    Element {
                        tag,
                        constructed,
                        start: self.pos,
                        content,
                        end: content + f.content_len,
                    },
                )
            },
        }
    }

    /// Frames the value at the cursor, without moving.
    pub fn next(&self, field: Field) -> (r: Result<Element, DecodeError>)
        requires
            self@.wf(),
        ensures
            match self@.next(field) {
                Ok(h) => r matches Ok(e) && e.frames(self@, h) && self@.after(h).wf(),
                Err(x) => r == Err::<Element, DecodeError>(x),
            },
    {
        if self.pos >= self.end {
            return self.element_of(None, field);
        }
        let frame = read_first(slice_subrange(self.data, self.pos, self.end), self.mode);
        self.element_of(frame, field)
    }

    /// Frames the value at the cursor and checks its tag and form.
    pub fn expect(&self, tag: u8, constructed: bool, field: Field) -> (r: Result<
        Element,
        DecodeError,
    >)
        requires
            self@.wf(),
        ensures
            match self@.expect(tag, constructed, field) {
                Ok(h) => r matches Ok(e) && e.frames(self@, h) && self@.after(h).wf(),
                Err(x) => r == Err::<Element, DecodeError>(x),
            },
    {
        let e = self.next(field)?;
        if e.tag == tag && e.constructed == constructed {
            Ok(e)
        } else {
            Err(DecodeError { kind: ErrorKind::UnexpectedTag, field, offset: self.pos })
        }
    }

    /// Frames the value at the cursor if it carries `tag`.
    pub fn expect_opt(&self, tag: u8, constructed: bool, field: Field) -> (r: Result<
        Option<Element>,
        DecodeError,
    >)
        requires
            self@.wf(),
        ensures
            match self@.expect_opt(tag, constructed, field) {
                Ok(Some(h)) => r matches Ok(Some(e)) && e.frames(self@, h) && self@.after(h).wf(),
                Ok(None) => r matches Ok(None),
                Err(x) => r == Err::<Option<Element>, DecodeError>(x),
            },
    {
        if self.pos >= self.end {
            return Ok(None);
        }
        let e = self.next(field)?;
        if e.tag != tag {
            Ok(None)
        } else if e.constructed != constructed {
            Err(DecodeError { kind: ErrorKind::UnexpectedTag, field, offset: self.pos })
        } else {
            Ok(Some(e))
        }
    }

    /// Frames the value at the cursor, which must be primitive.
    pub fn expect_primitive(&self, field: Field) -> (r: Result<Element, DecodeError>)
        requires
            self@.wf(),
        ensures
            match self@.expect_primitive(field) {
                Ok(h) => r matches Ok(e) && e.frames(self@, h) && self@.after(h).wf(),
                Err(x) => r == Err::<Element, DecodeError>(x),
            },
    {
        let e = self.next(field)?;
        if e.constructed {
            Err(DecodeError { kind: ErrorKind::UnexpectedTag, field, offset: self.pos })
        } else {
            Ok(e)
        }
    }

    /// Moves behind `e` and returns the cursor over its content.
    pub fn enter(&mut self, e: &Element) -> (inner: Cursor<'a>)
        requires
            old(self)@.wf(),
            old(self).pos == e.start <= e.content <= e.end <= old(self).end,
        ensures
            final(self)@ == (CursorView { pos: e.end as int, ..old(self)@ }),
            inner@ == (CursorView { pos: e.content as int, end: e.end as int, ..old(self)@ }),
            final(self)@.wf(),
            inner@.wf(),
    {
        let inner = Cursor { data: self.data, pos: e.content, end: e.end, mode: self.mode };
        self.pos = e.end;
        inner
    }

    /// Moves behind `e`.
    pub fn skip(&mut self, e: &Element)
        requires
            old(self)@.wf(),
            old(self).pos == e.start <= e.content <= e.end <= old(self).end,
        ensures
            final(self)@ == (CursorView { pos: e.end as int, ..old(self)@ }),
            final(self)@.wf(),
    {
        self.pos = e.end;
    }

    /// An owned copy of the content octets of `e`.
    pub fn content(&self, e: &Element) -> (bytes: Vec<u8>)
        requires
            self@.wf(),
            e.content <= e.end <= self.data@.len(),
        ensures
            bytes@ == self.data@.subrange(e.content as int, e.end as int),
    {
        slice_to_vec(slice_subrange(self.data, e.content, e.end))
    }

    /// An owned copy of all octets of `e`, header included.
    pub fn encoded(&self, e: &Element) -> (bytes: Vec<u8>)
        requires
            self@.wf(),
            e.start <= e.end <= self.data@.len(),
        ensures
            bytes@ == self.data@.subrange(e.start as int, e.end as int),
    {
        slice_to_vec(slice_subrange(self.data, e.start, e.end))
    }

    /// Takes all that is left as an owned copy, without reading it, and
    /// moves to the end.
    pub fn capture_all(&mut self) -> (bytes: Vec<u8>)
        requires
            old(self)@.wf(),
        ensures
            bytes@ == old(self)@.remaining(),
            final(self)@ == old(self)@.finished(),
            final(self)@.wf(),
    {
        let bytes = slice_to_vec(slice_subrange(self.data, self.pos, self.end));
        self.pos = self.end;
        bytes
    }

    /// Moves to the end without reading what is left.
    pub fn skip_all(&mut self)
        requires
            old(self)@.wf(),
        ensures
            final(self)@ == old(self)@.finished(),
            final(self)@.wf(),
    {
        self.pos = self.end;
    }

    /// Checks that nothing is left to read.
    pub fn finish(&self, field: Field) -> (r: Result<(), DecodeError>)
        requires
            self@.wf(),
        ensures
            r == self@.finish(field),
    {
        if self.pos >= self.end {
            Ok(())
        } else {
            Err(DecodeError { kind: ErrorKind::TrailingData, field, offset: self.pos })
        }
    }
}

/// A value that is framed at a cursor takes at least two octets and ends
/// within the cursor.
pub proof fn lemma_header_extent(c: CursorView)
    requires
        c.wf(),
    ensures
        c.header() matches Some(h) ==> h.extent() >= 2 && c.pos + h.extent() <= c.end
            && c.after(h).wf() && c.inner(h).wf(),
{
}

/// A value whose header declares an end behind the end of the cursor is
/// not read: the cursor reports `Malformed`.
pub proof fn lemma_value_past_end_is_malformed(c: CursorView, field: Field)
    requires
        c.wf(),
        !c.at_end(),
        crate::ber::header_of(c.remaining()) matches Some(h) && c.pos + h.extent() > c.end,
    ensures
        c.next(field) == Err::<Header, DecodeError>(c.error(ErrorKind::Malformed, field)),
{
}

/// What is framed at a cursor depends on the bytes that are left to read
/// and on the rules alone: two cursors that read alike frame the same value,
/// with the same tag, form and content, and read alike inside it and behind
/// it.
pub proof fn lemma_reads_like(x: CursorView, y: CursorView)
    requires
        x.reads_like(y),
    ensures
        x.at_end() == y.at_end(),
        x.header() == y.header(),
        !x.at_end() ==> x.tag() == y.tag() && x.constructed() == y.constructed(),
        x.header() matches Some(h) ==> x.content(h) == y.content(h) && x.inner(h).reads_like(
            y.inner(h),
        ) && x.after(h).reads_like(y.after(h)),
{
    assert(x.remaining().len() == y.remaining().len());
    if !x.at_end() {
        assert(x.data[x.pos] == x.remaining()[0]);
        assert(y.data[y.pos] == y.remaining()[0]);
    }
    lemma_header_extent(x);
    lemma_header_extent(y);
    if x.header() is Some {
        let h = x.header()->Some_0;
        let r = x.remaining();
        assert(x.content(h) =~= r.subrange(h.header_len() as int, h.extent() as int));
        assert(y.content(h) =~= r.subrange(h.header_len() as int, h.extent() as int));
        assert(x.inner(h).remaining() =~= x.content(h));
        assert(y.inner(h).remaining() =~= y.content(h));
        assert(x.after(h).remaining() =~= r.subrange(h.extent() as int, r.len() as int));
        assert(y.after(h).remaining() =~= r.subrange(h.extent() as int, r.len() as int));
    }
}

} // verus!
