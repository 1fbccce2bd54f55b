//! Searching byte sequences for delimiters.

use vstd::prelude::*;

verus! {

/// The byte that ends a field name, and that separates a host from its port.
pub const COLON: u8 = 0x3a;

/// The byte that may stand, any number of times, between a colon and the
/// value behind it.
pub const SPACE: u8 = 0x20;

/// The byte that ends a field value.
pub const CR: u8 = 0x0d;

/// The byte that ends a line.
pub const LF: u8 = 0x0a;

/// `i` is the first index at or after `from` at which `b` occurs in `s`.
pub open spec fn first_at(s: Seq<u8>, from: int, b: u8, i: int) -> bool {
    &&& 0 <= from <= i < s.len()
    &&& s[i] == b
    &&& forall|j: int| from <= j < i ==> s[j] != b
}

/// The first index at or after `from` at which `b` occurs in `s`, if there is one.
pub open spec fn position(s: Seq<u8>, from: int, b: u8) -> Option<int> {
    if exists|i: int| first_at(s, from, b, i) {
        Some(choose|i: int| first_at(s, from, b, i))
    } else {
        None
    }
}

/// `k` is where the last line of `s[from..to)` begins: just behind the last
/// line feed in that range, or at `from` when the range holds none.
pub open spec fn line_start_at(s: Seq<u8>, from: int, to: int, k: int) -> bool {
    &&& 0 <= from <= k <= to <= s.len()
    &&& (k == from || s[k - 1] == LF)
    &&& forall|j: int| k <= j < to ==> s[j] != LF
}

/// Where the last line of `s[from..to)` begins.
pub open spec fn line_start(s: Seq<u8>, from: int, to: int) -> int {
    choose|k: int| line_start_at(s, from, to, k)
}

/// `k` is where the spaces at the front of `s[from..to)` end: at the first
/// byte of the range that is no space, or at `to` when the range holds
/// nothing but spaces.
pub open spec fn spaces_end_at(s: Seq<u8>, from: int, to: int, k: int) -> bool {
    &&& 0 <= from <= k <= to <= s.len()
    &&& (k == to || s[k] != SPACE)
    &&& forall|j: int| from <= j < k ==> s[j] == SPACE
}

/// Where the spaces at the front of `s[from..to)` end.
pub open spec fn spaces_end(s: Seq<u8>, from: int, to: int) -> int {
    choose|k: int| spaces_end_at(s, from, to, k)
}

/// An index that is the first occurrence is the position.
pub proof fn lemma_position_found(s: Seq<u8>, from: int, b: u8, i: int)
    requires
        first_at(s, from, b, i),
    ensures
        position(s, from, b) == Some(i),
{
    let c = choose|i: int| first_at(s, from, b, i);
    assert(first_at(s, from, b, c));
    if c < i {
        assert(s[c] == b);
    } else if i < c {
        assert(s[i] == b);
    }
}

/// Where a byte does not occur at or after `from`, it has no position.
pub proof fn lemma_position_absent(s: Seq<u8>, from: int, b: u8)
    requires
        forall|j: int| from <= j < s.len() && 0 <= j ==> s[j] != b,
    ensures
        position(s, from, b) is None,
{
    assert forall|i: int| !first_at(s, from, b, i) by {
        if first_at(s, from, b, i) {
            assert(s[i] == b);
        }
    }
}

/// What a position is: the first occurrence, or a witness that there is none.
pub proof fn lemma_position(s: Seq<u8>, from: int, b: u8)
    ensures
        match position(s, from, b) {
            Some(i) => first_at(s, from, b, i),
            None => forall|j: int| 0 <= from <= j < s.len() ==> s[j] != b,
        },
{
    if exists|i: int| first_at(s, from, b, i) {
    } else {
        assert forall|j: int| 0 <= from <= j < s.len() implies s[j] != b by {
            lemma_no_first(s, from, b, j);
        }
    }
}

proof fn lemma_no_first(s: Seq<u8>, from: int, b: u8, j: int)
    requires
        0 <= from <= j < s.len(),
        forall|i: int| !first_at(s, from, b, i),
    ensures
        s[j] != b,
    decreases j - from,
{
    if s[j] == b {
        assert(!first_at(s, from, b, j));
        let k = choose|k: int| from <= k < j && s[k] == b;
        lemma_no_first(s, from, b, k);
    }
}

/// Bytes appended behind a position do not move it.
pub proof fn lemma_position_extends(s: Seq<u8>, t: Seq<u8>, from: int, b: u8)
    requires
        position(s, from, b) is Some,
    ensures
        position(s + t, from, b) == position(s, from, b),
{
    lemma_position(s, from, b);
    let i = position(s, from, b)->0;
    assert(first_at(s + t, from, b, i)) by {
        assert((s + t)[i] == s[i]);
        assert forall|j: int| from <= j < i implies (s + t)[j] != b by {
            assert((s + t)[j] == s[j]);
        }
    }
    lemma_position_found(s + t, from, b, i);
}

/// Every range has a last line.
pub proof fn lemma_line_start_exists(s: Seq<u8>, from: int, to: int)
    requires
        0 <= from <= to <= s.len(),
    ensures
        line_start_at(s, from, to, line_start(s, from, to)),
    decreases to - from,
{
    if from == to {
        assert(line_start_at(s, from, to, from));
    } else if s[to - 1] == LF {
        assert(line_start_at(s, from, to, to));
    } else {
        lemma_line_start_exists(s, from, to - 1);
        let k = line_start(s, from, to - 1);
        assert(line_start_at(s, from, to, k));
    }
}

/// A range has one last line only.
pub proof fn lemma_line_start_unique(s: Seq<u8>, from: int, to: int, k: int)
    requires
        line_start_at(s, from, to, k),
    ensures
        line_start(s, from, to) == k,
{
    let c = line_start(s, from, to);
    assert(line_start_at(s, from, to, c));
    if c < k {
        assert(s[k - 1] == LF);
    } else if k < c {
        assert(s[c - 1] == LF);
    }
}

/// In every range the spaces at the front end somewhere.
pub proof fn lemma_spaces_end_exists(s: Seq<u8>, from: int, to: int)
    requires
        0 <= from <= to <= s.len(),
    ensures
        spaces_end_at(s, from, to, spaces_end(s, from, to)),
    decreases to - from,
{
    if from == to || s[from] != SPACE {
        assert(spaces_end_at(s, from, to, from));
    } else {
        lemma_spaces_end_exists(s, from + 1, to);
        let k = spaces_end(s, from + 1, to);
        assert(spaces_end_at(s, from, to, k));
    }
}

/// The spaces at the front of a range end in one place only.
pub proof fn lemma_spaces_end_unique(s: Seq<u8>, from: int, to: int, k: int)
    requires
        spaces_end_at(s, from, to, k),
    ensures
        spaces_end(s, from, to) == k,
{
    let c = spaces_end(s, from, to);
    assert(spaces_end_at(s, from, to, c));
    if c < k {
        assert(s[c] == SPACE);
    } else if k < c {
        assert(s[k] == SPACE);
    }
}

/// Finds the first occurrence of `b` in `buf` at or after `from`.
pub fn find_byte(buf: &[u8], from: usize, b: u8) -> (r: Option<usize>)
    ensures
        match r {
            Some(i) => position(buf@, from as int, b) == Some(i as int) && first_at(
                buf@,
                from as int,
                b,
                i as int,
            ),
            None => position(buf@, from as int, b) is None,
        },
{
    let mut i: usize = from;
    while i < buf.len()
        invariant
            from <= i,
            forall|j: int| from <= j < i && j < buf@.len() ==> buf@[j] != b,
        decreases buf.len() - i,
    {
        if buf[i] == b {
            proof {
                lemma_position_found(buf@, from as int, b, i as int);
            }
            return Some(i);
        }
        i = i + 1;
    }
    proof {
        lemma_position_absent(buf@, from as int, b);
    }
    None
}

/// Finds where the last line of `buf[from..to)` begins.
pub fn find_line_start(buf: &[u8], from: usize, to: usize) -> (k: usize)
    requires
        from <= to <= buf@.len(),
    ensures
        k == line_start(buf@, from as int, to as int),
        line_start_at(buf@, from as int, to as int, k as int),
{
    let mut k: usize = to;
    while k > from && buf[k - 1] != LF
        invariant
            from <= k <= to <= buf@.len(),
            forall|j: int| k <= j < to ==> buf@[j] != LF,
        decreases k,
    {
        k = k - 1;
    }
    proof {
        lemma_line_start_unique(buf@, from as int, to as int, k as int);
    }
    k
}

/// Finds where the spaces at the front of `buf[from..to)` end.
pub fn skip_spaces(buf: &[u8], from: usize, to: usize) -> (k: usize)
    requires
        from <= to <= buf@.len(),
    ensures
        k == spaces_end(buf@, from as int, to as int),
        spaces_end_at(buf@, from as int, to as int, k as int),
{
    let mut k: usize = from;
    while k < to && buf[k] == SPACE
        invariant
            from <= k <= to <= buf@.len(),
            forall|j: int| from <= j < k ==> buf@[j] == SPACE,
        decreases to - k,
    {
        k = k + 1;
    }
    proof {
        lemma_spaces_end_unique(buf@, from as int, to as int, k as int);
    }
    k
}

} // verus!
