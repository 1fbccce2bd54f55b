//! The header scanner: fields out of a byte stream, one at a time.
//!
//! A field is found by three delimiters in a row: the colon that ends its
//! name, the carriage return that ends its value, and the line feed that
//! ends its line. The value begins behind the colon; spaces that stand
//! between the two, however many, are no part of it, and no other byte is
//! ever dropped. Nothing else is asked of the bytes: lines without a colon
//! that stand before a field (a request line, say) are passed over with it,
//! and so are bytes between the carriage return and the line feed. Whatever
//! has been passed over stays in the buffer, to be replayed.

use vstd::prelude::*;
use vstd::slice::slice_subrange;
use vstd::utf8::valid_utf8;
use crate::bytes::{
    find_byte, find_line_start, first_at, lemma_line_start_exists, lemma_line_start_unique,
    lemma_position, lemma_position_extends, lemma_spaces_end_exists, lemma_spaces_end_unique,
    line_start, line_start_at, position, skip_spaces, spaces_end, spaces_end_at, COLON, CR, LF,
    SPACE,
};
use crate::error::Error;
use crate::text::is_text;

verus! {

/// A range of bytes in the scanner's buffer, `end` excluded.
#[derive(Clone, Copy, Debug, PartialEq, Eq, Structural)]
pub struct Span {
    pub start: usize,
    pub end: usize,
}

impl View for Span {
    type V = (int, int);

    open spec fn view(&self) -> (int, int) {
        (self.start as int, self.end as int)
    }
}

/// The bytes of `s` in the range `r`.
pub open spec fn slice_of(s: Seq<u8>, r: (int, int)) -> Seq<u8> {
    s.subrange(r.0, r.1)
}

/// A header field: where its name and its value lie in the buffer. The
/// name stops in front of the colon. The value begins behind the colon and
/// the spaces that follow it, and stops in front of the carriage return.
#[derive(Clone, Copy, Debug, PartialEq, Eq, Structural)]
pub struct Field {
    pub name: Span,
    pub value: Span,
}

/// What one scan gave.
#[derive(Clone, Copy, Debug, PartialEq, Eq, Structural)]
pub enum Scan {
    /// A whole field; the cursor now stands behind it.
    Field(Field),
    /// The buffer ends before the field does.
    NeedMoreData,
    /// The bytes at the cursor are no header field.
    Error(Error),
}

/// Where the three delimiters of the first field at or after `cursor` stand,
/// if the buffer holds them all.
pub open spec fn delimiters(s: Seq<u8>, cursor: int) -> Option<(int, int, int)> {
    match position(s, cursor, COLON) {
        None => None,
        Some(colon) => match position(s, colon + 1, CR) {
            None => None,
            Some(cr) => match position(s, cr + 1, LF) {
                None => None,
                Some(lf) => Some((colon, cr, lf)),
            },
        },
    }
}

/// The name of a field whose colon stands at `colon`: the part of its line
/// in front of the colon.
pub open spec fn name_range(s: Seq<u8>, cursor: int, colon: int) -> (int, int) {
    (line_start(s, cursor, colon), colon)
}

/// The value of a field: all that stands between the colon and the
/// carriage return, without the spaces that follow the colon directly. All
/// of those spaces are left out, not only the first, and nothing but
/// spaces: a value that follows its colon at once is whole.
pub open spec fn value_range(s: Seq<u8>, colon: int, cr: int) -> (int, int) {
    (spaces_end(s, colon + 1, cr), cr)
}

/// The mathematical result of one scan.
pub enum ScanModel {
    Field { name: (int, int), value: (int, int), end: int },
    NeedMoreData,
    Error(Error),
}

impl ScanModel {
    /// The bytes of the name of the field that was found in `s`.
    pub open spec fn name_in(self, s: Seq<u8>) -> Seq<u8> {
        match self {
            ScanModel::Field { name, .. } => slice_of(s, name),
            _ => Seq::empty(),
        }
    }

    /// The bytes of the value of the field that was found in `s`.
    pub open spec fn value_in(self, s: Seq<u8>) -> Seq<u8> {
        match self {
            ScanModel::Field { value, .. } => slice_of(s, value),
            _ => Seq::empty(),
        }
    }
}

/// What a scan of `s` from `cursor` gives.
pub open spec fn scan_at(s: Seq<u8>, cursor: int) -> ScanModel {
    match delimiters(s, cursor) {
        None => ScanModel::NeedMoreData,
        Some((colon, cr, lf)) => {
            let name = name_range(s, cursor, colon);
            let value = value_range(s, colon, cr);
            if valid_utf8(slice_of(s, name)) && valid_utf8(slice_of(s, value)) {
                ScanModel::Field { name, value, end: lf + 1 }
            } else {
                ScanModel::Error(Error::NonText)
            }
        },
    }
}

/// The delimiters of a field stand in order behind the cursor and inside
/// the buffer, and the name begins at or behind the cursor.
pub proof fn lemma_delimiters(s: Seq<u8>, cursor: int)
    requires
        0 <= cursor <= s.len(),
    ensures
        match delimiters(s, cursor) {
            Some((colon, cr, lf)) => {
                &&& cursor <= colon < cr < lf < s.len()
                &&& first_at(s, cursor, COLON, colon)
                &&& first_at(s, colon + 1, CR, cr)
                &&& first_at(s, cr + 1, LF, lf)
                &&& line_start_at(s, cursor, colon, line_start(s, cursor, colon))
                &&& spaces_end_at(s, colon + 1, cr, spaces_end(s, colon + 1, cr))
            },
            None => true,
        },
{
    lemma_position(s, cursor, COLON);
    if let Some(colon) = position(s, cursor, COLON) {
        lemma_position(s, colon + 1, CR);
        if let Some(cr) = position(s, colon + 1, CR) {
            lemma_position(s, cr + 1, LF);
            lemma_line_start_exists(s, cursor, colon);
            lemma_spaces_end_exists(s, colon + 1, cr);
        }
    }
}

/// A field that the buffer holds whole is not changed by what is read
/// behind it, and neither is a field that was found malformed.
pub proof fn lemma_scan_extends(s: Seq<u8>, t: Seq<u8>, cursor: int)
    requires
        0 <= cursor <= s.len(),
        !(scan_at(s, cursor) is NeedMoreData),
    ensures
        scan_at(s + t, cursor) == scan_at(s, cursor),
{
    lemma_delimiters(s, cursor);
    let (colon, cr, lf) = delimiters(s, cursor)->0;
    lemma_position_extends(s, t, cursor, COLON);
    lemma_position_extends(s, t, colon + 1, CR);
    lemma_position_extends(s, t, cr + 1, LF);
    let k = line_start(s, cursor, colon);
    assert(line_start_at(s + t, cursor, colon, k)) by {
        assert forall|j: int| k <= j < colon implies (s + t)[j] != LF by {
            assert((s + t)[j] == s[j]);
        }
        if k != cursor {
            assert((s + t)[k - 1] == s[k - 1]);
        }
    }
    lemma_line_start_unique(s + t, cursor, colon, k);
    assert(slice_of(s + t, name_range(s, cursor, colon)) =~= slice_of(
        s,
        name_range(s, cursor, colon),
    ));
    let v = spaces_end(s, colon + 1, cr);
    assert(spaces_end_at(s + t, colon + 1, cr, v)) by {
        assert forall|j: int| colon + 1 <= j < v implies (s + t)[j] == SPACE by {
            assert((s + t)[j] == s[j]);
        }
        if v != cr {
            assert((s + t)[v] == s[v]);
        }
    }
    lemma_spaces_end_unique(s + t, colon + 1, cr, v);
    assert(slice_of(s + t, value_range(s, colon, cr)) =~= slice_of(s, value_range(s, colon, cr)));
}

/// An incremental scanner that owns the bytes read from the client so far.
///
/// The buffer only grows. The cursor marks how many of its bytes belong to
/// fields already handed out; it never moves back.
pub struct HeaderScanner {
    buf: Vec<u8>,
    cursor: usize,
}

impl HeaderScanner {
    /// All bytes taken in so far.
    pub closed spec fn buffer(&self) -> Seq<u8> {
        self.buf@
    }

    /// How many bytes of the buffer belong to fields already handed out.
    pub closed spec fn cursor(&self) -> int {
        self.cursor as int
    }

    /// The cursor stands inside the buffer.
    pub open spec fn wf(&self) -> bool {
        0 <= self.cursor() <= self.buffer().len()
    }

    /// The bytes in front of the cursor.
    pub open spec fn consumed_bytes(&self) -> Seq<u8> {
        self.buffer().take(self.cursor())
    }

    /// The bytes at and behind the cursor.
    pub open spec fn pending_bytes(&self) -> Seq<u8> {
        self.buffer().skip(self.cursor())
    }

    /// A scanner that has read nothing.
    pub fn new() -> (s: HeaderScanner)
        ensures
            s.wf(),
            s.buffer() == Seq::<u8>::empty(),
            s.cursor() == 0,
    {
        HeaderScanner { buf: Vec::new(), cursor: 0 }
    }

    /// Takes in bytes that were read from the client, behind those already
    /// there.
    pub fn feed(&mut self, bytes: &[u8])
        requires
            old(self).wf(),
        ensures
            final(self).wf(),
            final(self).buffer() == old(self).buffer() + bytes@,
            final(self).cursor() == old(self).cursor(),
    {
        self.buf.extend_from_slice(bytes);
        assert(self.buf@ =~= old(self).buf@ + bytes@);
    }

    /// Scans for the next field, from the cursor on.
    ///
    /// On a field the cursor moves behind the field's line feed; otherwise
    /// it stays. The buffer is never changed.
    pub fn next_field(&mut self) -> (r: Scan)
        requires
            old(self).wf(),
        ensures
            final(self).wf(),
            final(self).buffer() == old(self).buffer(),
            old(self).cursor() <= final(self).cursor(),
            match r {
                Scan::Field(f) => scan_at(old(self).buffer(), old(self).cursor())
                    == (ScanModel::Field {
                    name: f.name@,
                    value: f.value@,
                    end: final(self).cursor(),
                }),
                Scan::NeedMoreData => scan_at(old(self).buffer(), old(self).cursor())
                    == ScanModel::NeedMoreData && final(self).cursor() == old(self).cursor(),
                Scan::Error(e) => scan_at(old(self).buffer(), old(self).cursor())
                    == ScanModel::Error(e) && final(self).cursor() == old(self).cursor(),
            },
            r matches Scan::Field(f) ==> f.name.start <= f.name.end < f.value.start
                <= f.value.end < final(self).cursor() && old(self).cursor() <= f.name.start,
    {
        let buf = self.buf.as_slice();
        let colon = match find_byte(buf, self.cursor, COLON) {
            Some(i) => i,
            None => {
                return Scan::NeedMoreData;
            },
        };
        assert(colon < buf.len());
        let cr = match find_byte(buf, colon + 1, CR) {
            Some(i) => i,
            None => {
                return Scan::NeedMoreData;
            },
        };
        assert(cr < buf.len());
        let lf = match find_byte(buf, cr + 1, LF) {
            Some(i) => i,
            None => {
                return Scan::NeedMoreData;
            },
        };
        let name = Span { start: find_line_start(buf, self.cursor, colon), end: colon };
        let value = Span { start: skip_spaces(buf, colon + 1, cr), end: cr };
        if !is_text(slice_subrange(buf, name.start, name.end)) {
            return Scan::Error(Error::NonText);
        }
        if !is_text(slice_subrange(buf, value.start, value.end)) {
            return Scan::Error(Error::NonText);
        }
        self.cursor = lf + 1;
        Scan::Field(Field { name, value })
    }

    /// Whether a field has begun at the cursor: whether the bytes that
    /// belong to no field yet hold the colon that ends a name.
    pub fn in_field(&self) -> (r: bool)
        requires
            self.wf(),
        ensures
            r == (position(self.buffer(), self.cursor(), COLON) is Some),
    {
        find_byte(self.buf.as_slice(), self.cursor, COLON).is_some()
    }

    /// The bytes of a range of the buffer.
    pub fn bytes(&self, span: Span) -> (r: &[u8])
        requires
            span.start <= span.end <= self.buffer().len(),
        ensures
            r@ == slice_of(self.buffer(), span@),
    {
        slice_subrange(self.buf.as_slice(), span.start, span.end)
    }

    /// The bytes in front of the cursor: the fields handed out so far, with
    /// all that was passed over between them.
    pub fn consumed(&self) -> (r: &[u8])
        requires
            self.wf(),
        ensures
            r@ == self.consumed_bytes(),
    {
        slice_subrange(self.buf.as_slice(), 0, self.cursor)
    }

    /// The bytes that were read and belong to no field yet.
    pub fn pending(&self) -> (r: &[u8])
        requires
            self.wf(),
        ensures
            r@ == self.pending_bytes(),
    {
        slice_subrange(self.buf.as_slice(), self.cursor, self.buf.len())
    }

    /// How many bytes belong to fields handed out so far.
    pub fn position(&self) -> (n: usize)
        ensures
            n == self.cursor(),
    {
        self.cursor
    }

    /// How many bytes were taken in.
    pub fn len(&self) -> (n: usize)
        ensures
            n == self.buffer().len(),
    {
        self.buf.len()
    }
}

} // verus!
