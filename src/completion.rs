//! Word completion from the words of the buffer.
use vstd::prelude::*;
use vstd::string::StringExecFns;
use crate::actions::{chars_of, slice_of, spec_insert, spec_remove};
use crate::editor::{landing, Editor};
use crate::error::EditorError;
use crate::movement::{delete_span, motion_pos, Movement};
use crate::words::{alphanumeric, is_alphanumeric};

verus! {

/// Which way completion cycles through its candidates.
#[derive(Debug, Clone, Copy, PartialEq, Eq, Structural)]
pub enum Direction {
    Forward,
    Backward,
}

/// Texts of the second capture group (empty where it takes no part) of each
/// successive non-overlapping match of regular expression `pattern` in `text`;
/// `None` when the pattern is refused (invalid, or over the size limits).
pub uninterp spec fn regex_second_groups(pattern: Seq<char>, text: Seq<char>) -> Option<
    Seq<Seq<char>>,
>;

pub open spec fn views(ws: Seq<String>) -> Seq<Seq<char>> {
    ws.map_values(|w: String| w@)
}

/// Relies on `regex::Regex::new`, whose success depends on the pattern alone,
/// and on `Regex::captures_iter`, whose matches depend on the pattern and the
/// text alone; each match's second group is taken.
#[verifier::external_body]
fn second_groups(pattern: &str, text: &str) -> (r: Option<Vec<String>>)
    ensures
        r is Some <==> regex_second_groups(pattern@, text@) is Some,
        r is Some ==> views(r->Some_0@) == regex_second_groups(pattern@, text@)->Some_0,
{
    match regex::Regex::new(pattern) {
        Ok(re) => Some(
            re.captures_iter(text).map(
                |c| c.get(2).map_or(String::new(), |m| m.as_str().to_string()),
            ).collect(),
        ),
        Err(_) => None,
    }
}

/// Relies on `String`'s `FromIterator<&char>`: the string of the characters in order.
#[verifier::external_body]
fn string_of(v: &Vec<char>) -> (r: String)
    ensures
        r@ == v@,
{
    v.iter().collect()
}

/// The words of `ws` that are not empty, in order.
pub open spec fn nonempty(ws: Seq<Seq<char>>) -> Seq<Seq<char>>
    decreases ws.len(),
{
    if ws.len() == 0 {
        ws
    } else if ws.last().len() > 0 {
        nonempty(ws.drop_last()).push(ws.last())
    } else {
        nonempty(ws.drop_last())
    }
}

/// The first occurrence of each word of `ws`, in order.
pub open spec fn dedup_first(ws: Seq<Seq<char>>) -> Seq<Seq<char>>
    decreases ws.len(),
{
    if ws.len() == 0 {
        ws
    } else if dedup_first(ws.drop_last()).contains(ws.last()) {
        dedup_first(ws.drop_last())
    } else {
        dedup_first(ws.drop_last()).push(ws.last())
    }
}

/// The last occurrence of each word of `ws`, in order.
pub open spec fn dedup_last(ws: Seq<Seq<char>>) -> Seq<Seq<char>>
    decreases ws.len(),
{
    if ws.len() == 0 {
        ws
    } else if dedup_last(ws.skip(1)).contains(ws[0]) {
        dedup_last(ws.skip(1))
    } else {
        seq![ws[0]] + dedup_last(ws.skip(1))
    }
}

/// Candidates from the words found after the cursor, then those found before
/// it: empty words dropped, and each word once, at its first place scanning
/// forward or its last place scanning backward.
pub open spec fn completion_list(after: Seq<Seq<char>>, before: Seq<Seq<char>>, direction: Direction) -> Seq<
    Seq<char>,
> {
    let all = nonempty(after + before);
    match direction {
        Direction::Forward => dedup_first(all),
        Direction::Backward => dedup_last(all),
    }
}

/// Start of the alphanumeric run that ends at `j`.
pub open spec fn prefix_start(s: Seq<char>, j: int) -> int
    decreases j,
{
    if j <= 0 {
        0
    } else if !alphanumeric(s[j - 1]) {
        j
    } else {
        prefix_start(s, j - 1)
    }
}

/// Pattern of a word that starts after a non-word character (or at the start)
/// with `prefix`; its second group is the word.
pub open spec fn completion_pattern(prefix: Seq<char>) -> Seq<char> {
    "(\\W|^)("@ + prefix + "\\w*)"@
}

/// Candidates for completing the alphanumeric run that ends at `cursor` in
/// `s`: the words found after the cursor, then those before it, through the
/// completion pattern; none when the search cannot be made.
pub open spec fn fresh_words(s: Seq<char>, cursor: int, direction: Direction) -> Seq<Seq<char>> {
    let st = prefix_start(s, cursor);
    let pattern = completion_pattern(s.subrange(st, cursor));
    let after = regex_second_groups(pattern, s.skip(cursor));
    let before = regex_second_groups(pattern, s.take(st));
    if after is Some && before is Some {
        completion_list(after->Some_0, before->Some_0, direction)
    } else {
        Seq::empty()
    }
}

/// Index of the first candidate offered among `n`: the first one forward, the last one backward.
pub open spec fn start_index(n: int, direction: Direction) -> int {
    if direction == Direction::Backward && n > 0 {
        n - 1
    } else {
        0
    }
}

/// Index `i` among `n` candidates moved one step the given way, wrapping around.
pub open spec fn step_index(i: int, n: int, direction: Direction) -> int {
    match direction {
        Direction::Forward => (i + 1) % n,
        Direction::Backward => if i == 0 {
            n - 1
        } else {
            i - 1
        },
    }
}

/// Candidate words for completion and the index of the next one to offer.
#[derive(Debug)]
pub struct CompletionWords {
    pub words: Vec<String>,
    pub indice: usize,
}

impl CompletionWords {
    pub open spec fn wf(&self) -> bool {
        self.words@.len() == 0 || self.indice < self.words@.len()
    }

    /// The candidate at the index, which then moves one step the given way,
    /// wrapping around; `None` when there is no candidate.
    pub fn next(&mut self, direction: Direction) -> (r: Option<String>)
        requires
            old(self).wf(),
        ensures
            final(self).wf(),
            final(self).words == old(self).words,
            old(self).words@.len() == 0 <==> r is None,
            r is None ==> final(self).indice == old(self).indice,
            r is Some ==> ({
                let n = old(self).words@.len();
                let i = old(self).indice;
                &&& r->Some_0 == old(self).words@[i as int]
                &&& final(self).indice == step_index(i as int, n as int, direction)
            }),
    {
        let n = self.words.len();
        if n == 0 {
            return None;
        }
        let word = self.words[self.indice].clone();
        match direction {
            Direction::Forward => {
                self.indice = (self.indice + 1) % n;
            },
            Direction::Backward => {
                self.indice = if self.indice == 0 {
                    n - 1
                } else {
                    self.indice - 1
                };
            },
        }
        Some(word)
    }
}

/// Whether `w` is among `ws`.
fn contains_word(ws: &Vec<String>, w: &String) -> (r: bool)
    ensures
        r == views(ws@).contains(w@),
{
    let mut i: usize = 0;
    while i < ws.len()
        invariant
            i <= ws@.len(),
            forall|k: int| 0 <= k < i ==> ws@[k]@ != w@,
        decreases ws@.len() - i,
    {
        if ws[i] == *w {
            assert(views(ws@)[i as int] == w@);
            return true;
        }
        i = i + 1;
    }
    assert(!views(ws@).contains(w@)) by {
        if views(ws@).contains(w@) {
            let k = choose|k: int| 0 <= k < views(ws@).len() && views(ws@)[k] == w@;
            assert(ws@[k]@ == w@);
        }
    }
    false
}

/// The candidates that `after` (words found after the cursor) and `before`
/// (words found before it) give for `direction`, starting at the first one
/// forward and at the last one backward.
pub fn completion_words_from(after: Vec<String>, before: Vec<String>, direction: Direction) -> (r:
    CompletionWords)
    ensures
        r.wf(),
        views(r.words@) == completion_list(views(after@), views(before@), direction),
        r.indice == if direction == Direction::Backward && r.words@.len() > 0 {
            r.words@.len() - 1
        } else {
            0
        },
{
    let ghost a = views(after@);
    let ghost b = views(before@);
    let mut all: Vec<String> = Vec::new();
    let mut i: usize = 0;
    while i < after.len()
        invariant
            a == views(after@),
            i <= after@.len(),
            views(all@) == nonempty(a.take(i as int)),
        decreases after@.len() - i,
    {
        let w = after[i].clone();
        assert(a.take(i + 1).drop_last() =~= a.take(i as int));
        if !w.as_str().is_empty() {
            all.push(w);
        }
        assert(views(all@) =~= nonempty(a.take(i + 1)));
        i = i + 1;
    }
    assert(a.take(after@.len() as int) =~= a);
    assert(a + b.take(0) =~= a);
    let mut j: usize = 0;
    while j < before.len()
        invariant
            a == views(after@),
            b == views(before@),
            j <= before@.len(),
            views(all@) == nonempty(a + b.take(j as int)),
        decreases before@.len() - j,
    {
        let w = before[j].clone();
        assert((a + b.take(j + 1)).drop_last() =~= a + b.take(j as int));
        if !w.as_str().is_empty() {
            all.push(w);
        }
        assert(views(all@) =~= nonempty(a + b.take(j + 1)));
        j = j + 1;
    }
    assert(b.take(before@.len() as int) =~= b);
    let mut words: Vec<String> = Vec::new();
    match direction {
        Direction::Forward => {
            let mut j: usize = 0;
            while j < all.len()
                invariant
                    j <= all@.len(),
                    views(words@) == dedup_first(views(all@).take(j as int)),
                decreases all@.len() - j,
            {
                let w = all[j].clone();
                assert(views(all@).take(j + 1).drop_last() =~= views(all@).take(j as int));
                if !contains_word(&words, &w) {
                    words.push(w);
                    assert(views(words@) =~= dedup_first(views(all@).take(j + 1)));
                }
                j = j + 1;
            }
            assert(views(all@).take(all@.len() as int) =~= views(all@));
            CompletionWords { words, indice: 0 }
        },
        Direction::Backward => {
            let mut j: usize = all.len();
            while j > 0
                invariant
                    j <= all@.len(),
                    views(words@) == dedup_last(views(all@).skip(j as int)),
                decreases j,
            {
                let w = all[j - 1].clone();
                assert(views(all@).skip(j - 1).skip(1) =~= views(all@).skip(j as int));
                assert(views(all@).skip(j - 1)[0] == w@);
                if !contains_word(&words, &w) {
                    words.insert(0, w);
                    assert(views(words@) =~= seq![w@] + dedup_last(views(all@).skip(j as int)));
                }
                j = j - 1;
            }
            assert(views(all@).skip(0) =~= views(all@));
            let n = words.len();
            CompletionWords { words, indice: if n > 0 { n - 1 } else { 0 } }
        },
    }
}

/// Start of the alphanumeric run that ends at `j`.
fn prefix_start_index(s: &Vec<char>, j: usize) -> (r: usize)
    requires
        j <= s@.len(),
    ensures
        r == prefix_start(s@, j as int),
        r <= j,
{
    let mut k = j;
    while k > 0
        invariant
            k <= j <= s@.len(),
            prefix_start(s@, j as int) == prefix_start(s@, k as int),
        decreases k,
    {
        if !is_alphanumeric(s[k - 1]) {
            return k;
        }
        k = k - 1;
    }
    0
}

/// Candidates for completing the alphanumeric run that ends at `cursor` in `s`:
/// the words of `s` that start with that run after a non-word character, those
/// after the cursor first; none when the search cannot be made.
pub fn completion_matches(s: &Vec<char>, cursor: usize, direction: Direction) -> (r: CompletionWords)
    requires
        cursor <= s@.len(),
    ensures
        r.wf(),
        views(r.words@) == fresh_words(s@, cursor as int, direction),
        r.indice == start_index(r.words@.len() as int, direction),
{
    let st = prefix_start_index(s, cursor);
    let prefix = string_of(&slice_of(s, st, cursor));
    let mut pattern = <String as StringExecFns>::from_str("(\\W|^)(");
    pattern.append(prefix.as_str());
    pattern.append("\\w*)");
    let after_text = string_of(&slice_of(s, cursor, s.len()));
    let before_text = string_of(&slice_of(s, 0, st));
    proof {
        assert(s@.subrange(cursor as int, s@.len() as int) =~= s@.skip(cursor as int));
        assert(s@.subrange(0, st as int) =~= s@.take(st as int));
    }
    match (second_groups(pattern.as_str(), after_text.as_str()), second_groups(pattern.as_str(), before_text.as_str())) {
        (Some(after), Some(before)) => completion_words_from(after, before, direction),
        _ => CompletionWords { words: Vec::new(), indice: 0 },
    }
}

/// `completion_matches` on the characters of `content`.
pub fn get_completion_matches(content: &str, raw_cursor_position: usize, direction: Direction) -> (r:
    CompletionWords)
    requires
        raw_cursor_position <= content@.len(),
    ensures
        r.wf(),
        views(r.words@) == fresh_words(content@, raw_cursor_position as int, direction),
        r.indice == start_index(r.words@.len() as int, direction),
{
    let s = chars_of(content);
    completion_matches(&s, raw_cursor_position, direction)
}

/// What one completion step does from `e0` to `e1`, with result `r`: the
/// candidates are those of the run under way, or else gathered afresh at the
/// cursor; the candidate at the index replaces the word before the cursor
/// (deleted as by a backward word motion), and the index moves one step.
pub open spec fn completes(e0: Editor, e1: Editor, r: Result<(), EditorError>, direction: Direction) -> bool {
    let words = match e0.completion_words {
        Some(cw) => views(cw.words@),
        None => fresh_words(e0.text(), e0.pos(), direction),
    };
    let n = words.len() as int;
    let i = match e0.completion_words {
        Some(cw) => cw.indice as int,
        None => start_index(n, direction),
    };
    let s = e0.text();
    let span = delete_span(s, e0.pos(), motion_pos(Movement::Word(-1i64), e0));
    let cut = spec_remove(s, span.0, span.1);
    let at = landing(cut, span.0, e0.inserting());
    &&& e1.wf()
    &&& e1.undo_tree.wf()
    &&& e0.keeps_frame(&e1)
    &&& e1.completion_words is Some
    &&& e1.completion_words->Some_0.wf()
    &&& views(e1.completion_words->Some_0.words@) == words
    &&& (e0.completion_words matches Some(cw) ==> e1.completion_words->Some_0.words == cw.words)
    &&& e1.completion_words->Some_0.indice == if n > 0 {
        step_index(i, n, direction)
    } else {
        i
    }
    &&& n == 0 ==> r is Ok && e1.text() == s && e1.pos() == e0.pos()
    &&& n > 0 ==> (r is Ok <==> cut.len() + words[i].len() <= usize::MAX)
    &&& n > 0 && r is Ok ==> {
        &&& e1.text() == spec_insert(cut, at, words[i])
        &&& e1.pos() == landing(e1.text(), at + words[i].len(), e0.inserting())
    }
}

impl Editor {
    /// Replaces the word before the cursor by the next completion candidate;
    /// the candidates are gathered on the first request of a completion run.
    pub fn insert_completion(&mut self, direction: Direction) -> (r: Result<(), EditorError>)
        requires
            old(self).wf(),
            old(self).undo_tree.wf(),
            old(self).completion_words matches Some(cw) ==> cw.wf(),
        ensures
            completes(*old(self), *final(self), r, direction),
    {
        if self.completion_words.is_none() {
            let p = self.raw_position();
            let i = self.current_buffer_index;
            let cw = completion_matches(&self.buffers[i].content.0, p, direction);
            self.completion_words = Some(cw);
        }
        let mut cw = match self.completion_words.take() {
            Some(cw) => cw,
            None => CompletionWords { words: Vec::new(), indice: 0 },
        };
        let word = cw.next(direction);
        self.completion_words = Some(cw);
        match word {
            None => Ok(()),
            Some(w) => {
                let _ = Movement::Word(-1).delete(self);
                let chars = chars_of(w.as_str());
                self.insert_chars(&chars)
            },
        }
    }

    pub fn insert_completion_forward(&mut self) -> (r: Result<(), EditorError>)
        requires
            old(self).wf(),
            old(self).undo_tree.wf(),
            old(self).completion_words matches Some(cw) ==> cw.wf(),
        ensures
            completes(*old(self), *final(self), r, Direction::Forward),
    {
        self.insert_completion(Direction::Forward)
    }

    pub fn insert_completion_backward(&mut self) -> (r: Result<(), EditorError>)
        requires
            old(self).wf(),
            old(self).undo_tree.wf(),
            old(self).completion_words matches Some(cw) ==> cw.wf(),
        ensures
            completes(*old(self), *final(self), r, Direction::Backward),
    {
        self.insert_completion(Direction::Backward)
    }
}

} // verus!
