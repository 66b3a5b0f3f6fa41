//! Searching the text of a buffer for a substring.
use vstd::prelude::*;
use crate::actions::chars_of;
use crate::buffer::Buffer;
use crate::completion::Direction;
use crate::text::{line_count, line_len};

verus! {

/// `t` occurs in `s` at offset `i`.
pub open spec fn matches_at(s: Seq<char>, t: Seq<char>, i: int) -> bool {
    0 <= i && i + t.len() <= s.len() && s.subrange(i, i + t.len()) == t
}

/// First offset from `j` on where `t` occurs in `s`.
pub open spec fn first_match_from(s: Seq<char>, t: Seq<char>, j: int) -> Option<int>
    decreases s.len() + 1 - j,
{
    if j < 0 || j + t.len() > s.len() {
        None
    } else if matches_at(s, t, j) {
        Some(j)
    } else {
        first_match_from(s, t, j + 1)
    }
}

/// Last offset in `j..=i` where `t` occurs in `s`.
pub open spec fn last_match_down(s: Seq<char>, t: Seq<char>, j: int, i: int) -> Option<int>
    decreases i + 1 - j,
{
    if i < j {
        None
    } else if matches_at(s, t, i) {
        Some(i)
    } else {
        last_match_down(s, t, j, i - 1)
    }
}

/// Offset of the first (forward) or last (backward) occurrence of `t` in `s`
/// that starts at or after `p`.
pub open spec fn search_target(s: Seq<char>, t: Seq<char>, p: int, direction: Direction) -> Option<int> {
    match direction {
        Direction::Forward => first_match_from(s, t, p),
        Direction::Backward => last_match_down(s, t, p, s.len() - t.len()),
    }
}

/// Whether `t` occurs in `s` at offset `i`.
fn occurs_at(s: &Vec<char>, t: &Vec<char>, i: usize) -> (r: bool)
    requires
        i + t@.len() <= s@.len(),
    ensures
        r == matches_at(s@, t@, i as int),
{
    let n = s.len();
    let mut k: usize = 0;
    while k < t.len()
        invariant
            n == s@.len(),
            i + t@.len() <= s@.len(),
            k <= t@.len(),
            s@.subrange(i as int, i + k) == t@.take(k as int),
        decreases t@.len() - k,
    {
        if s[i + k] != t[k] {
            assert(s@.subrange(i as int, i + t@.len())[k as int] != t@[k as int]);
            return false;
        }
        k = k + 1;
        assert(s@.subrange(i as int, i + k) =~= t@.take(k as int));
    }
    assert(t@.take(t@.len() as int) =~= t@);
    true
}

impl Buffer {
    /// Offset, counted from the cursor, of the first (forward) or the last
    /// (backward) occurrence of `substring` that starts at or after the cursor.
    pub fn search(&self, substring: &str, direction: Direction) -> (r: Option<usize>)
        requires
            self.line() < line_count(self.content@),
            self.col() <= line_len(self.content@, self.line()),
        ensures
            r is Some <==> search_target(self.content@, substring@, self.position(), direction) is Some,
            r is Some ==> search_target(self.content@, substring@, self.position(), direction)->Some_0
                == self.position() + r->Some_0,
    {
        let t = chars_of(substring);
        let s = &self.content.0;
        let p = self.raw_position();
        if t.len() > s.len() || s.len() - t.len() < p {
            return None;
        }
        let last = s.len() - t.len();
        match direction {
            Direction::Forward => {
                let mut i = p;
                loop
                    invariant
                        last == s@.len() - t@.len(),
                        p <= i <= last,
                        t@ == substring@,
                        s@ == self.content@,
                        p == self.position(),
                        direction == Direction::Forward,
                        first_match_from(s@, t@, p as int) == first_match_from(s@, t@, i as int),
                    decreases last - i,
                {
                    if occurs_at(s, &t, i) {
                        return Some(i - p);
                    }
                    if i == last {
                        assert(first_match_from(s@, t@, i + 1) is None);
                        return None;
                    }
                    i = i + 1;
                }
            },
            Direction::Backward => {
                let mut i = last;
                loop
                    invariant
                        last == s@.len() - t@.len(),
                        p <= i <= last,
                        t@ == substring@,
                        s@ == self.content@,
                        p == self.position(),
                        direction == Direction::Backward,
                        last_match_down(s@, t@, p as int, last as int) == last_match_down(
                            s@,
                            t@,
                            p as int,
                            i as int,
                        ),
                    decreases i - p,
                {
                    if occurs_at(s, &t, i) {
                        return Some(i - p);
                    }
                    if i == p {
                        assert(last_match_down(s@, t@, p as int, p - 1) is None);
                        return None;
                    }
                    i = i - 1;
                }
            },
        }
    }
}

} // verus!
