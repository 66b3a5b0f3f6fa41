//! Character classes and the word motions built on them.
use vstd::prelude::*;

verus! {

/// Whether `c` is alphabetic or numeric, as Unicode defines it.
pub uninterp spec fn alphanumeric(c: char) -> bool;

/// Whether `c` has the Unicode White_Space property: tab to carriage return,
/// space, next line, no-break space, ogham space mark, the spaces from en quad
/// to hair space, line and paragraph separators, narrow no-break space, medium
/// mathematical space and ideographic space.
pub open spec fn whitespace(c: char) -> bool {
    let u = c as u32;
    (0x9 <= u <= 0xd) || u == 0x20 || u == 0x85 || u == 0xa0 || u == 0x1680 || (0x2000 <= u
        <= 0x200a) || u == 0x2028 || u == 0x2029 || u == 0x202f || u == 0x205f || u == 0x3000
}

/// Relies on `char::is_alphanumeric`, which depends on `c` alone.
#[verifier::external_body]
pub(crate) fn is_alphanumeric(c: char) -> (r: bool)
    ensures
        r == alphanumeric(c),
{
    c.is_alphanumeric()
}

/// Whether `c` is white space.
pub fn is_whitespace(c: char) -> (r: bool)
    ensures
        r == whitespace(c),
{
    let u = c as u32;
    (0x9 <= u && u <= 0xd) || u == 0x20 || u == 0x85 || u == 0xa0 || u == 0x1680 || (0x2000 <= u
        && u <= 0x200a) || u == 0x2028 || u == 0x2029 || u == 0x202f || u == 0x205f || u == 0x3000
}

/// The class of a character for word motions.
#[derive(PartialEq, Eq, Structural, Debug, Clone, Copy)]
pub enum CharacterType {
    Word,
    Punctuation,
    Other,
}

pub open spec fn word_char(c: char) -> bool {
    alphanumeric(c) || c == '_'
}

/// One of ``!"#$%&'()*+,-./:;<=>?@[\]^_`{|}~``.
pub open spec fn ascii_punctuation(c: char) -> bool {
    let u = c as u32;
    (0x21 <= u <= 0x2f) || (0x3a <= u <= 0x40) || (0x5b <= u <= 0x60) || (0x7b <= u <= 0x7e)
}

pub open spec fn class_of(c: char) -> CharacterType {
    if word_char(c) {
        CharacterType::Word
    } else if ascii_punctuation(c) {
        CharacterType::Punctuation
    } else {
        CharacterType::Other
    }
}

/// A letter, a digit or `_`.
pub fn is_word_char(c: char) -> (r: bool)
    ensures
        r == word_char(c),
{
    c == '_' || is_alphanumeric(c)
}

pub fn is_ascii_punctuation(c: char) -> (r: bool)
    ensures
        r == ascii_punctuation(c),
{
    let u = c as u32;
    (0x21 <= u && u <= 0x2f) || (0x3a <= u && u <= 0x40) || (0x5b <= u && u <= 0x60) || (0x7b <= u
        && u <= 0x7e)
}

pub fn classify(c: char) -> (r: CharacterType)
    ensures
        r == class_of(c),
{
    if is_word_char(c) {
        CharacterType::Word
    } else if is_ascii_punctuation(c) {
        CharacterType::Punctuation
    } else {
        CharacterType::Other
    }
}

/// Index `j` begins a new word for a motion that started on a character of class `c0`:
/// it is no blank, and either of another class or preceded by a blank.
pub open spec fn word_boundary(s: Seq<char>, j: int, c0: CharacterType) -> bool {
    &&& class_of(s[j]) != CharacterType::Other
    &&& (class_of(s[j]) != c0 || class_of(s[j - 1]) == CharacterType::Other)
}

/// First index from `j` on that is a word boundary for class `c0`, or the last index.
pub open spec fn first_boundary_from(s: Seq<char>, j: int, c0: CharacterType) -> int
    decreases s.len() - j,
{
    if j >= s.len() {
        s.len() - 1
    } else if word_boundary(s, j, c0) {
        j
    } else {
        first_boundary_from(s, j + 1, c0)
    }
}

/// Start of the next word after offset `p`; `p` itself at the end of the text.
pub open spec fn next_word(s: Seq<char>, p: int) -> int {
    if p + 1 >= s.len() {
        p
    } else {
        first_boundary_from(s, p + 1, class_of(s[p]))
    }
}

/// A word starts at `j`: no blank, and the first of its class.
pub open spec fn word_start(s: Seq<char>, j: int) -> bool {
    &&& 0 <= j < s.len()
    &&& class_of(s[j]) != CharacterType::Other
    &&& (j == 0 || class_of(s[j - 1]) != class_of(s[j]))
}

/// Last word start strictly before `j`, or 0.
pub open spec fn last_word_start_below(s: Seq<char>, j: int) -> int
    decreases j,
{
    if j <= 0 {
        0
    } else if word_start(s, j - 1) {
        j - 1
    } else {
        last_word_start_below(s, j - 1)
    }
}

/// Start of the word before offset `p`.
pub open spec fn prev_word(s: Seq<char>, p: int) -> int {
    last_word_start_below(s, p)
}

/// First index from `j` on whose class is not `c`, or the length of the text.
pub open spec fn first_change_from(s: Seq<char>, j: int, c: CharacterType) -> int
    decreases s.len() - j,
{
    if j >= s.len() {
        s.len() as int
    } else if class_of(s[j]) != c {
        j
    } else {
        first_change_from(s, j + 1, c)
    }
}

/// Last index strictly before `j` whose class is not `c`, or -1.
pub open spec fn last_change_below(s: Seq<char>, j: int, c: CharacterType) -> int
    decreases j,
{
    if j <= 0 {
        -1
    } else if class_of(s[j - 1]) != c {
        j - 1
    } else {
        last_change_below(s, j - 1, c)
    }
}

/// Index of the last character, 0 for an empty text.
pub open spec fn last_index(s: Seq<char>) -> int {
    if s.len() > 0 {
        s.len() - 1
    } else {
        0
    }
}

/// End of the next word after `p`: blanks after `p` are skipped, then the run
/// of the first class found is followed to its last character.
pub open spec fn next_word_end(s: Seq<char>, p: int) -> int {
    let j = first_change_from(s, p + 1, CharacterType::Other);
    if j >= s.len() {
        last_index(s)
    } else {
        let k = first_change_from(s, j + 1, class_of(s[j]));
        if k >= s.len() {
            last_index(s)
        } else {
            k - 1
        }
    }
}

/// End of the word before `p`: the run that holds `p` is left behind, blanks
/// are skipped, and the last character found is returned (0 if none).
pub open spec fn prev_word_end(s: Seq<char>, p: int) -> int {
    if s.len() == 0 {
        0
    } else {
        let q = if p < s.len() {
            p
        } else {
            s.len() - 1
        };
        let k = last_change_below(s, q, class_of(s[q]));
        if k < 0 {
            0
        } else if class_of(s[k]) != CharacterType::Other {
            k
        } else {
            let m = last_change_below(s, k, CharacterType::Other);
            if m < 0 {
                0
            } else {
                m
            }
        }
    }
}

/// The four single-step word motions.
pub enum WordStep {
    Next,
    Prev,
    NextEnd,
    PrevEnd,
}

pub open spec fn word_step(s: Seq<char>, p: int, step: WordStep) -> int {
    match step {
        WordStep::Next => next_word(s, p),
        WordStep::Prev => prev_word(s, p),
        WordStep::NextEnd => next_word_end(s, p),
        WordStep::PrevEnd => prev_word_end(s, p),
    }
}

/// `n` steps of one word motion from `p`.
pub open spec fn word_steps(s: Seq<char>, p: int, step: WordStep, n: nat) -> int
    decreases n,
{
    if n == 0 {
        p
    } else {
        word_step(s, word_steps(s, p, step, (n - 1) as nat), step)
    }
}

/// `delta` words from `p`: forward for positive `delta`, backward for negative.
pub open spec fn nth_word(s: Seq<char>, p: int, delta: int) -> int {
    if delta < 0 {
        word_steps(s, p, WordStep::Prev, (-delta) as nat)
    } else {
        word_steps(s, p, WordStep::Next, delta as nat)
    }
}

/// `delta` word ends from `p`: forward for positive `delta`, backward for negative.
pub open spec fn nth_word_end(s: Seq<char>, p: int, delta: int) -> int {
    if delta < 0 {
        word_steps(s, p, WordStep::PrevEnd, (-delta) as nat)
    } else {
        word_steps(s, p, WordStep::NextEnd, delta as nat)
    }
}

/// Start of the next word after `p`.
pub fn next_word_index(s: &Vec<char>, p: usize) -> (r: usize)
    requires
        p <= s@.len(),
    ensures
        r == next_word(s@, p as int),
        r <= s@.len(),
{
    if s.len() == 0 || p >= s.len() - 1 {
        return p;
    }
    let c0 = classify(s[p]);
    let mut j = p + 1;
    while j < s.len()
        invariant
            p + 1 <= j <= s@.len(),
            p < s@.len(),
            c0 == class_of(s@[p as int]),
            first_boundary_from(s@, p + 1, c0) == first_boundary_from(s@, j as int, c0),
        decreases s.len() - j,
    {
        let cj = classify(s[j]);
        if cj != CharacterType::Other && (cj != c0 || classify(s[j - 1])
            == CharacterType::Other) {
            return j;
        }
        j = j + 1;
    }
    s.len() - 1
}

/// Start of the word before `p`.
pub fn previous_word_index(s: &Vec<char>, p: usize) -> (r: usize)
    requires
        p <= s@.len(),
    ensures
        r == prev_word(s@, p as int),
        r <= p,
{
    let mut j = p;
    while j > 0
        invariant
            j <= p <= s@.len(),
            last_word_start_below(s@, p as int) == last_word_start_below(s@, j as int),
        decreases j,
    {
        let c = classify(s[j - 1]);
        if c != CharacterType::Other && (j == 1 || classify(s[j - 2]) != c) {
            return j - 1;
        }
        j = j - 1;
    }
    0
}

fn first_change_index(s: &Vec<char>, from: usize, c: CharacterType) -> (r: usize)
    requires
        from <= s@.len(),
    ensures
        r == first_change_from(s@, from as int, c),
        from <= r <= s@.len(),
{
    let mut j = from;
    while j < s.len()
        invariant
            from <= j <= s@.len(),
            first_change_from(s@, from as int, c) == first_change_from(s@, j as int, c),
        decreases s.len() - j,
    {
        if classify(s[j]) != c {
            return j;
        }
        j = j + 1;
    }
    j
}

/// Returns `j + 1` for the last index `j` below `from` whose class is not `c`, or 0 if none.
fn last_change_index(s: &Vec<char>, from: usize, c: CharacterType) -> (r: usize)
    requires
        from <= s@.len(),
    ensures
        r as int - 1 == last_change_below(s@, from as int, c),
        r <= from,
{
    let mut j = from;
    while j > 0
        invariant
            j <= from <= s@.len(),
            last_change_below(s@, from as int, c) == last_change_below(s@, j as int, c),
        decreases j,
    {
        if classify(s[j - 1]) != c {
            return j;
        }
        j = j - 1;
    }
    0
}

/// End of the next word after `p`.
pub fn next_word_end_index(s: &Vec<char>, p: usize) -> (r: usize)
    requires
        p < s@.len(),
    ensures
        r == next_word_end(s@, p as int),
        r <= s@.len(),
{
    let n = s.len();
    let j = first_change_index(s, p + 1, CharacterType::Other);
    if j >= s.len() {
        return s.len() - 1;
    }
    let k = first_change_index(s, j + 1, classify(s[j]));
    if k >= s.len() {
        s.len() - 1
    } else {
        k - 1
    }
}

/// End of the word before `p`.
pub fn previous_word_end_index(s: &Vec<char>, p: usize) -> (r: usize)
    ensures
        r == prev_word_end(s@, p as int),
        r <= s@.len(),
{
    if s.len() == 0 {
        return 0;
    }
    let q = if p < s.len() {
        p
    } else {
        s.len() - 1
    };
    let k1 = last_change_index(s, q, classify(s[q]));
    if k1 == 0 {
        return 0;
    }
    let k = k1 - 1;
    if classify(s[k]) != CharacterType::Other {
        return k;
    }
    let m1 = last_change_index(s, k, CharacterType::Other);
    if m1 == 0 {
        0
    } else {
        m1 - 1
    }
}

fn word_step_index(s: &Vec<char>, p: usize, step: &WordStep) -> (r: usize)
    requires
        p <= s@.len(),
    ensures
        r == word_step(s@, p as int, *step),
        r <= s@.len(),
{
    match step {
        WordStep::Next => next_word_index(s, p),
        WordStep::Prev => previous_word_index(s, p),
        WordStep::NextEnd => {
            if p < s.len() {
                next_word_end_index(s, p)
            } else {
                proof {
                    assert(first_change_from(s@, p + 1, CharacterType::Other) == s@.len());
                }
                if s.len() > 0 {
                    s.len() - 1
                } else {
                    0
                }
            }
        },
        WordStep::PrevEnd => previous_word_end_index(s, p),
    }
}

/// A word motion that stays put stays put on every further step.
pub proof fn lemma_word_steps_fixed(s: Seq<char>, p: int, step: WordStep, i: nat, n: nat)
    requires
        i <= n,
        word_steps(s, p, step, i + 1) == word_steps(s, p, step, i),
    ensures
        word_steps(s, p, step, n) == word_steps(s, p, step, i),
    decreases n - i,
{
    if i < n {
        lemma_word_steps_fixed(s, p, step, i, (n - 1) as nat);
    }
}

/// `n` steps of a word motion from `p`, stopping once it no longer moves.
pub fn word_steps_index(s: &Vec<char>, p: usize, step: WordStep, n: u64) -> (r: usize)
    requires
        p <= s@.len(),
    ensures
        r == word_steps(s@, p as int, step, n as nat),
        r <= s@.len(),
{
    let mut pos = p;
    let mut i: u64 = 0;
    while i < n
        invariant
            i <= n,
            pos <= s@.len(),
            pos == word_steps(s@, p as int, step, i as nat),
        decreases n - i,
    {
        let next = word_step_index(s, pos, &step);
        if next == pos {
            proof {
                lemma_word_steps_fixed(s@, p as int, step, i as nat, n as nat);
            }
            return pos;
        }
        pos = next;
        i = i + 1;
    }
    pos
}

} // verus!
