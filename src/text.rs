//! The line model of a text held as a sequence of characters.
//!
//! A text with `n` newline characters has `n + 1` lines: line `y` starts just
//! after the `y`-th newline (line 0 at offset 0) and ends at the next newline
//! or at the end of the text.
use vstd::prelude::*;

verus! {

/// Number of newline characters in `s`.
pub open spec fn count_nl(s: Seq<char>) -> nat
    decreases s.len(),
{
    if s.len() == 0 {
        0
    } else {
        count_nl(s.drop_last()) + if s.last() == '\n' {
            1nat
        } else {
            0nat
        }
    }
}

/// Number of lines of `s`.
pub open spec fn line_count(s: Seq<char>) -> nat {
    count_nl(s) + 1
}

/// The line on which offset `t` lies.
pub open spec fn line_of(s: Seq<char>, t: int) -> nat {
    count_nl(s.take(t))
}

/// Offset at which line `y` starts (meaningful for `y < line_count(s)`).
pub open spec fn line_start(s: Seq<char>, y: nat) -> int
    decreases s.len(),
{
    if y == 0 || s.len() == 0 {
        0
    } else if count_nl(s) == y && s.last() == '\n' {
        s.len() as int
    } else {
        line_start(s.drop_last(), y)
    }
}

/// Offset just past the last character of line `y`: its newline, or the end of the text.
pub open spec fn line_end(s: Seq<char>, y: nat) -> int {
    if y < count_nl(s) {
        line_start(s, y + 1) - 1
    } else {
        s.len() as int
    }
}

/// Number of characters of line `y`, its newline excluded.
pub open spec fn line_len(s: Seq<char>, y: nat) -> int {
    line_end(s, y) - line_start(s, y)
}

/// Offset of column `x` of line `y`.
pub open spec fn offset_of(s: Seq<char>, y: nat, x: nat) -> int {
    line_start(s, y) + x
}

/// Last column the cursor may take on line `y`: one past the last character
/// while inserting, on the last character otherwise.
pub open spec fn last_column(s: Seq<char>, y: nat, inserting: bool) -> int {
    if inserting {
        line_len(s, y)
    } else if line_len(s, y) > 0 {
        line_len(s, y) - 1
    } else {
        0
    }
}

pub proof fn lemma_count_nl_step(s: Seq<char>, i: int)
    requires
        0 <= i < s.len(),
    ensures
        count_nl(s.take(i + 1)) == count_nl(s.take(i)) + if s[i] == '\n' {
            1nat
        } else {
            0nat
        },
{
    assert(s.take(i + 1).drop_last() =~= s.take(i));
}

pub proof fn lemma_count_nl_full(s: Seq<char>)
    ensures
        s.take(s.len() as int) == s,
{
    assert(s.take(s.len() as int) =~= s);
}

/// Counting newlines of prefixes is monotone, and grows by at most one per character.
pub proof fn lemma_count_nl_mono(s: Seq<char>, i: int, j: int)
    requires
        0 <= i <= j <= s.len(),
    ensures
        count_nl(s.take(i)) <= count_nl(s.take(j)),
        count_nl(s.take(j)) <= count_nl(s.take(i)) + (j - i),
    decreases j - i,
{
    if i < j {
        lemma_count_nl_mono(s, i, j - 1);
        lemma_count_nl_step(s, j - 1);
    }
}

/// A text has no more newlines than characters.
pub proof fn lemma_count_nl_le_len(s: Seq<char>)
    ensures
        count_nl(s) <= s.len(),
{
    lemma_count_nl_full(s);
    lemma_count_nl_mono(s, 0, s.len() as int);
    assert(s.take(0) =~= Seq::<char>::empty());
}

/// Line `y` (for `0 < y <= count_nl(s)`) starts right after a newline and has `y` newlines before it.
pub proof fn lemma_line_start_char(s: Seq<char>, y: nat)
    requires
        y <= count_nl(s),
    ensures
        0 <= line_start(s, y) <= s.len(),
        line_of(s, line_start(s, y)) == y,
        y > 0 ==> line_start(s, y) > 0 && s[line_start(s, y) - 1] == '\n',
    decreases s.len(),
{
    if y == 0 {
        assert(s.take(0) =~= Seq::<char>::empty());
    } else if s.len() == 0 {
    } else if count_nl(s) == y && s.last() == '\n' {
        lemma_count_nl_full(s);
    } else {
        let t = s.drop_last();
        assert(count_nl(s) == count_nl(t) + if s.last() == '\n' {
            1nat
        } else {
            0nat
        });
        assert(y <= count_nl(t));
        lemma_line_start_char(t, y);
        let k = line_start(t, y);
        assert(t.take(k) =~= s.take(k));
        if y > 0 {
            assert(t[k - 1] == s[k - 1]);
        }
    }
}

/// The line that offset `t` lies on starts at or before `t` and ends at or after it.
pub proof fn lemma_line_of_bounds(s: Seq<char>, t: int)
    requires
        0 <= t <= s.len(),
    ensures
        line_of(s, t) <= count_nl(s),
        line_start(s, line_of(s, t)) <= t <= line_end(s, line_of(s, t)),
{
    let y = line_of(s, t);
    lemma_count_nl_full(s);
    lemma_count_nl_mono(s, t, s.len() as int);
    lemma_line_start_char(s, y);
    let a = line_start(s, y);
    if a > t {
        lemma_count_nl_step(s, a - 1);
        lemma_count_nl_mono(s, t, a - 1);
    }
    if y < count_nl(s) {
        lemma_line_start_char(s, y + 1);
        let b = line_start(s, y + 1);
        if t > b - 1 {
            lemma_count_nl_mono(s, b, t);
        }
    }
}

/// Line `y` holds no newline, and one follows it unless it is the last line.
pub proof fn lemma_line_shape(s: Seq<char>, y: nat)
    requires
        y <= count_nl(s),
    ensures
        0 <= line_start(s, y) <= line_end(s, y) <= s.len(),
        forall|k: int| line_start(s, y) <= k < line_end(s, y) ==> s[k] != '\n',
        y < count_nl(s) ==> s[line_end(s, y)] == '\n',
        forall|k: int| line_start(s, y) <= k <= line_end(s, y) ==> line_of(s, k) == y,
{
    lemma_line_start_char(s, y);
    let a = line_start(s, y);
    lemma_count_nl_full(s);
    let e = line_end(s, y);
    if y < count_nl(s) {
        lemma_line_start_char(s, y + 1);
        let b = line_start(s, y + 1);
        lemma_count_nl_step(s, b - 1);
        if a > b - 1 {
            lemma_count_nl_mono(s, b, a);
        }
        assert(a <= b - 1);
    }
    assert(a <= e <= s.len());
    assert forall|k: int| a <= k <= e implies line_of(s, k) == y by {
        lemma_count_nl_mono(s, a, k);
        if y < count_nl(s) {
            lemma_count_nl_mono(s, k, e);
        } else {
            lemma_count_nl_mono(s, k, s.len() as int);
        }
    }
    assert forall|k: int| a <= k < e implies s[k] != '\n' by {
        lemma_count_nl_step(s, k);
        lemma_count_nl_mono(s, a, k);
        if y < count_nl(s) {
            lemma_count_nl_mono(s, k + 1, e);
        } else {
            lemma_count_nl_mono(s, k + 1, s.len() as int);
        }
    }
}

} // verus!
