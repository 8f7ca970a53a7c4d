//! The sequence number in a journal cursor.
//!
//! A cursor is an opaque token made of segments with `;` between them, such
//! as `s=abc;i=1a;b=def`. The segment that begins with `i=` holds the
//! entry's sequence number in hexadecimal.

use crate::error::FormatError;
use crate::number::{decimal_text, parse_unsigned, read_u32, to_decimal};
use crate::text::{chars_of, occurs_at};
use vstd::prelude::*;

verus! {

/// The mark that begins the segment with the sequence number.
pub open spec fn index_mark() -> Seq<char> {
    seq!['i', '=']
}

/// No `;` stands in `s` from `a` up to `b`.
pub open spec fn unbroken(s: Seq<char>, a: int, b: int) -> bool {
    forall|k: int| a <= k < b ==> s[k] != ';'
}

/// `s[a..b]` is a segment of `s`: it begins at the start of `s` or behind a
/// `;`, ends at the end of `s` or before a `;`, and holds no `;`.
pub open spec fn is_segment(s: Seq<char>, a: int, b: int) -> bool {
    &&& 0 <= a <= b <= s.len()
    &&& a == 0 || s[a - 1] == ';'
    &&& b == s.len() || s[b] == ';'
    &&& unbroken(s, a, b)
}

/// `s[a..b]` is a segment of `s` that begins with `i=`.
pub open spec fn is_index_segment(s: Seq<char>, a: int, b: int) -> bool {
    is_segment(s, a, b) && occurs_at(s.subrange(a, b), index_mark(), 0)
}

/// Where the segment that begins at `from` ends: at the next `;`, or at the
/// end of `s`.
pub open spec fn segment_end(s: Seq<char>, from: int) -> int
    decreases s.len() - from,
{
    if from >= s.len() {
        s.len() as int
    } else if s[from] == ';' {
        from
    } else {
        segment_end(s, from + 1)
    }
}

/// What follows `i=` in the first segment that begins with it, looking from
/// the segment that begins at `from`; `None` where no segment does.
pub open spec fn index_field(s: Seq<char>, from: int) -> Option<Seq<char>>
    decreases s.len() - from,
{
    if 0 <= from <= s.len() {
        let end = segment_end(s, from);
        if occurs_at(s.subrange(from, end), index_mark(), 0) {
            Some(s.subrange(from + 2, end))
        } else if from <= end < s.len() {
            index_field(s, end + 1)
        } else {
            None
        }
    } else {
        None
    }
}

/// The sequence number that a cursor holds.
pub open spec fn cursor_index(cursor: Seq<char>) -> Result<nat, FormatError> {
    match index_field(cursor, 0) {
        Some(digits) => match parse_unsigned(digits, 16, 0xffff_ffff) {
            Some(n) => Ok(n),
            None => Err(FormatError::InvalidSequenceNumber),
        },
        None => Err(FormatError::NoSequenceNumber),
    }
}

/// The segment that begins at `from` ends where `segment_end` says.
pub proof fn lemma_segment_end(s: Seq<char>, from: int)
    requires
        0 <= from <= s.len(),
    ensures
        from <= segment_end(s, from) <= s.len(),
        unbroken(s, from, segment_end(s, from)),
        segment_end(s, from) == s.len() || s[segment_end(s, from)] == ';',
    decreases s.len() - from,
{
    if from < s.len() && s[from] != ';' {
        lemma_segment_end(s, from + 1);
    }
}

/// A segment that begins at `a` ends at `segment_end(s, a)` and nowhere else.
pub proof fn lemma_segment_is_unique(s: Seq<char>, a: int, b: int)
    requires
        is_segment(s, a, b),
    ensures
        b == segment_end(s, a),
{
    lemma_segment_end(s, a);
    let e = segment_end(s, a);
    if b < e {
        assert(s[b] != ';');
    } else if e < b {
        assert(s[e] != ';');
    }
}

/// Looking from the start of a segment, `index_field` finds nothing exactly
/// where no segment from there on begins with `i=`.
pub proof fn lemma_index_field_from(s: Seq<char>, from: int)
    requires
        0 <= from <= s.len(),
        from == 0 || s[from - 1] == ';',
    ensures
        index_field(s, from) is None <==> forall|a: int, b: int|
            from <= a && #[trigger] is_segment(s, a, b) ==> !is_index_segment(s, a, b),
    decreases s.len() - from,
{
    lemma_segment_end(s, from);
    let end = segment_end(s, from);
    assert(is_segment(s, from, end));
    if occurs_at(s.subrange(from, end), index_mark(), 0) {
        assert(is_index_segment(s, from, end));
    } else if end < s.len() {
        lemma_index_field_from(s, end + 1);
        assert forall|a: int, b: int| from <= a && #[trigger] is_segment(s, a, b) implies (a
            == from && b == end) || end + 1 <= a by {
            if a <= end {
                if a > from {
                    assert(s[a - 1] != ';');
                }
                lemma_segment_is_unique(s, a, b);
            }
        }
    } else {
        assert forall|a: int, b: int| from <= a && #[trigger] is_segment(s, a, b) implies a
            == from && b == end by {
            if a > from {
                assert(s[a - 1] != ';');
            }
            lemma_segment_is_unique(s, a, b);
        }
    }
}

/// A cursor without any segment that begins with `i=` gives no sequence
/// number, and only such a cursor is said to have none.
pub proof fn lemma_cursor_without_index_segment(cursor: Seq<char>)
    ensures
        cursor_index(cursor) == Err::<nat, FormatError>(FormatError::NoSequenceNumber)
            <==> forall|a: int, b: int| !is_index_segment(cursor, a, b),
{
    lemma_index_field_from(cursor, 0);
    if index_field(cursor, 0) is None {
        assert forall|a: int, b: int| !is_index_segment(cursor, a, b) by {
            if is_index_segment(cursor, a, b) {
                assert(is_segment(cursor, a, b));
            }
        }
    }
}

/// Where the segment of `v` that begins at `from` ends.
fn find_segment_end(v: &Vec<char>, from: usize) -> (end: usize)
    requires
        from <= v.len(),
    ensures
        end == segment_end(v@, from as int),
        from <= end <= v.len(),
{
    let mut end: usize = from;
    while end < v.len() && v[end] != ';'
        invariant
            from <= end <= v.len(),
            segment_end(v@, from as int) == segment_end(v@, end as int),
        decreases v.len() - end,
    {
        end = end + 1;
    }
    end
}

/// The sequence number of the entry with the given cursor, in decimal.
pub fn get_entry_nr(cursor_string: &String) -> (r: Result<String, FormatError>)
    ensures
        match r {
            Ok(text) => cursor_index(cursor_string@) is Ok && text@ == decimal_text(
                cursor_index(cursor_string@).unwrap(),
            ),
            Err(e) => cursor_index(cursor_string@) == Err::<nat, FormatError>(e),
        },
{
    let v = chars_of(cursor_string.as_str());
    let n = v.len();
    let mut from: usize = 0;
    loop
        invariant
            n == v.len(),
            v@ == cursor_string@,
            from <= n,
            index_field(v@, 0) == index_field(v@, from as int),
        decreases n - from,
    {
        let end = find_segment_end(&v, from);
        let ghost segment = v@.subrange(from as int, end as int);
        if end - from >= 2 && v[from] == 'i' && v[from + 1] == '=' {
            assert(segment.subrange(0, 2) =~= index_mark());
            return match read_u32(&v, from + 2, end, 16) {
                Some(number) => Ok(to_decimal(number as u64)),
                None => Err(FormatError::InvalidSequenceNumber),
            };
        }
        proof {
            if occurs_at(segment, index_mark(), 0) {
                assert(segment.subrange(0, 2)[0] == 'i');
                assert(segment.subrange(0, 2)[1] == '=');
            }
        }
        if end >= n {
            return Err(FormatError::NoSequenceNumber);
        }
        from = end + 1;
    }
}

} // verus!
