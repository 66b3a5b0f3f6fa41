//! Reversible edits and the linear history that undo and redo walk.
use vstd::prelude::*;
use vstd::string::StrSliceExecFns;
use crate::buffer::{occurrence_below, occurrence_below_index, occurrence_from, occurrence_from_index};
use crate::editor::{landing, Editor, Selection};
use crate::modes::Mode;
use crate::movement::{delete_span, motion_pos, yank_span, Movement};
use crate::text::line_len;
use crate::error::EditorError;
use crate::text::{lemma_count_nl_le_len, lemma_line_shape};

verus! {

/// `t` put into `s` at offset `at`.
pub open spec fn spec_insert(s: Seq<char>, at: int, t: Seq<char>) -> Seq<char> {
    s.take(at) + t + s.skip(at)
}

/// `s` without the characters of `from..to`.
pub open spec fn spec_remove(s: Seq<char>, from: int, to: int) -> Seq<char> {
    s.take(from) + s.skip(to)
}

/// A copy of `s` with `t` put in at offset `at`.
pub fn spliced(s: &Vec<char>, at: usize, t: &Vec<char>) -> (r: Vec<char>)
    requires
        at <= s@.len(),
        s@.len() + t@.len() <= usize::MAX,
    ensures
        r@ == spec_insert(s@, at as int, t@),
{
    let mut r: Vec<char> = Vec::new();
    let mut i: usize = 0;
    while i < at
        invariant
            i <= at <= s@.len(),
            r@ == s@.take(i as int),
        decreases at - i,
    {
        r.push(s[i]);
        i = i + 1;
        assert(r@ =~= s@.take(i as int));
    }
    let mut j: usize = 0;
    while j < t.len()
        invariant
            j <= t@.len(),
            r@ == s@.take(at as int) + t@.take(j as int),
        decreases t@.len() - j,
    {
        r.push(t[j]);
        j = j + 1;
        assert(r@ =~= s@.take(at as int) + t@.take(j as int));
    }
    assert(t@.take(t@.len() as int) =~= t@);
    let mut k: usize = at;
    while k < s.len()
        invariant
            at <= k <= s@.len(),
            r@ == s@.take(at as int) + t@ + s@.subrange(at as int, k as int),
        decreases s@.len() - k,
    {
        r.push(s[k]);
        k = k + 1;
        assert(r@ =~= s@.take(at as int) + t@ + s@.subrange(at as int, k as int));
    }
    assert(s@.subrange(at as int, s@.len() as int) =~= s@.skip(at as int));
    r
}

/// The characters of `s` in `from..to`.
pub fn slice_of(s: &Vec<char>, from: usize, to: usize) -> (r: Vec<char>)
    requires
        from <= to <= s@.len(),
    ensures
        r@ == s@.subrange(from as int, to as int),
{
    let mut r: Vec<char> = Vec::new();
    let mut i = from;
    while i < to
        invariant
            from <= i <= to <= s@.len(),
            r@ == s@.subrange(from as int, i as int),
        decreases to - i,
    {
        r.push(s[i]);
        i = i + 1;
        assert(r@ =~= s@.subrange(from as int, i as int));
    }
    r
}

/// A copy of `s` without the characters of `from..to`.
pub fn removed(s: &Vec<char>, from: usize, to: usize) -> (r: Vec<char>)
    requires
        from <= to <= s@.len(),
    ensures
        r@ == spec_remove(s@, from as int, to as int),
{
    let mut r = slice_of(s, 0, from);
    let mut k = to;
    assert(s@.subrange(0, from as int) =~= s@.take(from as int));
    while k < s.len()
        invariant
            to <= k <= s@.len(),
            r@ == s@.take(from as int) + s@.subrange(to as int, k as int),
        decreases s@.len() - k,
    {
        r.push(s[k]);
        k = k + 1;
        assert(r@ =~= s@.take(from as int) + s@.subrange(to as int, k as int));
    }
    assert(s@.subrange(to as int, s@.len() as int) =~= s@.skip(to as int));
    r
}

/// An edit of the text: insert characters at an offset, or delete a range.
#[derive(Debug)]
pub enum Action {
    Insert(usize, Vec<char>),
    Delete(usize, usize),
}

/// What an edit is, with its text as a sequence: `(true, at, at, text)` for an
/// insertion, `(false, from, to, empty)` for a deletion.
impl View for Action {
    type V = (bool, int, int, Seq<char>);

    open spec fn view(&self) -> (bool, int, int, Seq<char>) {
        match self {
            Action::Insert(at, c) => (true, *at as int, *at as int, c@),
            Action::Delete(from, to) => (false, *from as int, *to as int, Seq::empty()),
        }
    }
}

/// Lower end of the range that a deletion of `from..to` removes from `s`.
pub open spec fn delete_low(s: Seq<char>, from: int, to: int) -> int {
    let lo = if from < to {
        from
    } else {
        to
    };
    if lo < delete_high(s, from, to) {
        lo
    } else {
        delete_high(s, from, to)
    }
}

/// Upper end of the range that a deletion of `from..to` removes from `s`.
pub open spec fn delete_high(s: Seq<char>, from: int, to: int) -> int {
    let hi = if from < to {
        to
    } else {
        from
    };
    if hi < s.len() {
        hi
    } else {
        s.len() as int
    }
}

/// Offset at which an insertion at `at` puts its text: `at`, or the end of `s`.
pub open spec fn insert_at(s: Seq<char>, at: int) -> int {
    if at <= s.len() {
        at
    } else {
        s.len() as int
    }
}

/// The text after edit `a` is applied to `s`.
pub open spec fn apply_edit(a: (bool, int, int, Seq<char>), s: Seq<char>) -> Seq<char> {
    if a.0 {
        spec_insert(s, insert_at(s, a.1), a.3)
    } else {
        spec_remove(s, delete_low(s, a.1, a.2), delete_high(s, a.1, a.2))
    }
}

/// The edit that undoes `a` once it has been applied to `s`.
pub open spec fn inverse_edit(a: (bool, int, int, Seq<char>), s: Seq<char>) -> (
    bool,
    int,
    int,
    Seq<char>,
) {
    if a.0 {
        let at = insert_at(s, a.1);
        (false, at, at + a.3.len(), Seq::empty())
    } else {
        let lo = delete_low(s, a.1, a.2);
        (true, lo, lo, s.subrange(lo, delete_high(s, a.1, a.2)))
    }
}

/// Where the cursor is sent after edit `a` is applied to `s`: after the
/// inserted text, or to the start of the removed range.
pub open spec fn edit_cursor(a: (bool, int, int, Seq<char>), s: Seq<char>) -> int {
    if a.0 {
        insert_at(s, a.1) + a.3.len()
    } else {
        delete_low(s, a.1, a.2)
    }
}

/// History of edits as a linear stack: `actions[..insert_index]` can be undone,
/// `actions[insert_index..]` redone.
#[derive(Debug)]
pub struct UndoTree {
    pub actions: Vec<Action>,
    pub insert_index: usize,
}

impl UndoTree {
    pub open spec fn wf(&self) -> bool {
        self.insert_index <= self.actions@.len()
    }

    /// Views of the recorded edits, oldest first.
    pub open spec fn edits(&self) -> Seq<(bool, int, int, Seq<char>)> {
        self.actions@.map_values(|a: Action| a@)
    }

    pub fn new() -> (r: UndoTree)
        ensures
            r.actions@.len() == 0,
            r.insert_index == 0,
    {
        UndoTree { actions: Vec::new(), insert_index: 0 }
    }

    /// Records `action`: what could be redone is dropped, `action` becomes the last edit.
    pub fn push(&mut self, action: Action)
        requires
            old(self).wf(),
        ensures
            final(self).wf(),
            final(self).edits() == old(self).edits().take(old(self).insert_index as int).push(
                action@,
            ),
            final(self).insert_index == old(self).insert_index + 1,
    {
        self.actions.truncate(self.insert_index);
        self.actions.push(action);
        self.insert_index = self.actions.len();
        assert(self.edits() =~= old(self).edits().take(old(self).insert_index as int).push(
            action@,
        ));
    }

    /// Takes out the last edit that can be undone, leaving an empty deletion in its slot.
    pub fn undo(&mut self) -> (r: Option<Action>)
        requires
            old(self).wf(),
        ensures
            final(self).wf(),
            old(self).insert_index == 0 <==> r is None,
            r is None ==> *final(self) == *old(self),
            r is Some ==> ({
                let i = old(self).insert_index - 1;
                &&& final(self).insert_index == i
                &&& final(self).actions@.len() == old(self).actions@.len()
                &&& r->Some_0@ == old(self).edits()[i]
                &&& final(self).edits() == old(self).edits().update(i, final(self).edits()[i])
            }),
    {
        if self.insert_index == 0 {
            return None;
        }
        self.insert_index = self.insert_index - 1;
        let mut slot = Action::Delete(0, 0);
        let i = self.insert_index;
        std::mem::swap(&mut slot, &mut self.actions[i]);
        assert(self.edits() =~= old(self).edits().update(i as int, self.edits()[i as int]));
        Some(slot)
    }

    /// Puts `action` in the slot that the last undo emptied.
    pub fn replace_undo(&mut self, action: Action)
        requires
            old(self).wf(),
            old(self).insert_index < old(self).actions@.len(),
        ensures
            final(self).wf(),
            final(self).insert_index == old(self).insert_index,
            final(self).edits() == old(self).edits().update(
                old(self).insert_index as int,
                action@,
            ),
    {
        let i = self.insert_index;
        self.actions.set(i, action);
        assert(self.edits() =~= old(self).edits().update(i as int, action@));
    }

    /// Takes out the next edit that can be redone, leaving an empty deletion in its slot.
    pub fn redo(&mut self) -> (r: Option<Action>)
        requires
            old(self).wf(),
        ensures
            final(self).wf(),
            old(self).insert_index == old(self).actions@.len() <==> r is None,
            r is None ==> *final(self) == *old(self),
            r is Some ==> ({
                let i = old(self).insert_index as int;
                &&& final(self).insert_index == i + 1
                &&& final(self).actions@.len() == old(self).actions@.len()
                &&& r->Some_0@ == old(self).edits()[i]
                &&& final(self).edits() == old(self).edits().update(i, final(self).edits()[i])
            }),
    {
        if self.insert_index >= self.actions.len() {
            return None;
        }
        let i = self.insert_index;
        let mut slot = Action::Delete(0, 0);
        std::mem::swap(&mut slot, &mut self.actions[i]);
        self.insert_index = i + 1;
        assert(self.edits() =~= old(self).edits().update(i as int, self.edits()[i as int]));
        Some(slot)
    }

    /// Puts `action` in the slot that the last redo emptied.
    pub fn replace_redo(&mut self, action: Action)
        requires
            old(self).wf(),
            old(self).insert_index > 0,
        ensures
            final(self).wf(),
            final(self).insert_index == old(self).insert_index,
            final(self).edits() == old(self).edits().update(
                old(self).insert_index - 1,
                action@,
            ),
    {
        let i = self.insert_index - 1;
        self.actions.set(i, action);
        assert(self.edits() =~= old(self).edits().update(i as int, action@));
    }
}

/// The characters of `s`.
pub fn chars_of(s: &str) -> (r: Vec<char>)
    ensures
        r@ == s@,
{
    let n = s.unicode_len();
    let mut r: Vec<char> = Vec::new();
    let mut i: usize = 0;
    while i < n
        invariant
            i <= n,
            n == s@.len(),
            r@ == s@.take(i as int),
        decreases n - i,
    {
        r.push(s.get_char(i));
        i = i + 1;
        assert(r@ =~= s@.take(i as int));
    }
    assert(s@.take(n as int) =~= s@);
    r
}

/// Edit `a` can be applied to `s` without the text outgrowing the address space.
pub open spec fn edit_fits(a: (bool, int, int, Seq<char>), s: Seq<char>) -> bool {
    a.0 ==> s.len() + a.3.len() <= usize::MAX
}

/// How many characters backspace removes before offset `p`, at column `col`:
/// a tab stands for four columns, so a tab takes up to three more characters with it.
pub open spec fn backspace_width(s: Seq<char>, p: int, col: int) -> int {
    if col > 0 && s[p - 1] == '\t' {
        if col < 4 {
            col
        } else {
            4
        }
    } else {
        1
    }
}

impl Action {
    /// Applies the edit to the current buffer and returns the edit that undoes
    /// it; the cursor goes after inserted text, or to where deleted text was.
    pub fn perform(&self, editor: &mut Editor) -> (r: Result<Action, EditorError>)
        requires
            old(editor).frame_ok(),
        ensures
            edit_fits(self@, old(editor).text()) <==> r is Ok,
            r is Err ==> *final(editor) == *old(editor),
            r is Ok ==> ({
                let s = old(editor).text();
                &&& final(editor).wf()
                &&& old(editor).keeps_frame(final(editor))
                &&& final(editor).text() == apply_edit(self@, s)
                &&& r->Ok_0@ == inverse_edit(self@, s)
                &&& final(editor).pos() == landing(
                    final(editor).text(),
                    edit_cursor(self@, s),
                    old(editor).inserting(),
                )
                &&& final(editor).last_selection == old(editor).last_selection
                &&& final(editor).clipboard == old(editor).clipboard
                &&& final(editor).undo_tree == old(editor).undo_tree
                &&& final(editor).completion_words == old(editor).completion_words
            }),
    {
        let i = editor.current_buffer_index;
        let n = editor.buffers[i].content.0.len();
        match self {
            Action::Insert(at, content) => {
                if content.len() > usize::MAX - n {
                    return Err(EditorError::OutOfBounds(*at));
                }
                let at = if *at <= n {
                    *at
                } else {
                    n
                };
                let text = spliced(&editor.buffers[i].content.0, at, content);
                editor.set_text(text);
                editor.move_to_raw(at + content.len());
                Ok(Action::Delete(at, at + content.len()))
            },
            Action::Delete(from, to) => {
                let lo = if *from < *to {
                    *from
                } else {
                    *to
                };
                let hi = if *from < *to {
                    *to
                } else {
                    *from
                };
                let hi = if hi < n {
                    hi
                } else {
                    n
                };
                let lo = if lo < hi {
                    lo
                } else {
                    hi
                };
                let deleted = slice_of(&editor.buffers[i].content.0, lo, hi);
                let text = removed(&editor.buffers[i].content.0, lo, hi);
                editor.set_text(text);
                editor.move_to_raw(lo);
                Ok(Action::Insert(lo, deleted))
            },
        }
    }
}

impl Editor {
    /// Puts `content` into the text at the cursor, moves the cursor after it,
    /// and records the deletion that undoes it; refused when the text would
    /// outgrow the address space.
    pub fn insert_chars(&mut self, content: &Vec<char>) -> (r: Result<(), EditorError>)
        requires
            old(self).wf(),
            old(self).undo_tree.wf(),
        ensures
            old(self).text().len() + content@.len() <= usize::MAX <==> r is Ok,
            r is Err ==> *final(self) == *old(self),
            r is Ok ==> ({
                let s = old(self).text();
                let p = old(self).pos();
                &&& final(self).wf()
                &&& final(self).undo_tree.wf()
                &&& old(self).keeps_frame(final(self))
                &&& final(self).text() == spec_insert(s, p, content@)
                &&& final(self).pos() == landing(
                    final(self).text(),
                    p + content@.len(),
                    old(self).inserting(),
                )
                &&& final(self).undo_tree.edits() == old(self).undo_tree.edits().take(
                    old(self).undo_tree.insert_index as int,
                ).push((false, p, p + content@.len(), Seq::empty()))
                &&& final(self).undo_tree.insert_index == old(self).undo_tree.insert_index + 1
                &&& old(self).inserting() ==> final(self).pos() == p + content@.len()
                &&& final(self).last_selection == old(self).last_selection
                &&& final(self).clipboard == old(self).clipboard
                &&& final(self).completion_words == old(self).completion_words
            }),
    {
        let p = self.raw_position();
        let i = self.current_buffer_index;
        let n = self.buffers[i].content.0.len();
        if content.len() > usize::MAX - n {
            return Err(EditorError::OutOfBounds(p));
        }
        let text = spliced(&self.buffers[i].content.0, p, content);
        self.set_text(text);
        self.move_to_raw(p + content.len());
        proof {
            if self.inserting() {
                crate::editor::lemma_landing_inserting(self.text(), p + content@.len());
            }
        }
        self.undo_tree.push(Action::Delete(p, p + content.len()));
        Ok(())
    }

    /// Puts the characters of `content` into the text at the cursor; see `insert_chars`.
    pub fn insert(&mut self, content: &str) -> (r: Result<(), EditorError>)
        requires
            old(self).wf(),
            old(self).undo_tree.wf(),
        ensures
            old(self).text().len() + content@.len() <= usize::MAX <==> r is Ok,
            r is Err ==> *final(self) == *old(self),
            r is Ok ==> ({
                let s = old(self).text();
                let p = old(self).pos();
                &&& final(self).wf()
                &&& final(self).undo_tree.wf()
                &&& old(self).keeps_frame(final(self))
                &&& final(self).text() == spec_insert(s, p, content@)
                &&& final(self).pos() == landing(
                    final(self).text(),
                    p + content@.len(),
                    old(self).inserting(),
                )
                &&& final(self).undo_tree.edits() == old(self).undo_tree.edits().take(
                    old(self).undo_tree.insert_index as int,
                ).push((false, p, p + content@.len(), Seq::empty()))
                &&& final(self).undo_tree.insert_index == old(self).undo_tree.insert_index + 1
                &&& old(self).inserting() ==> final(self).pos() == p + content@.len()
                &&& final(self).last_selection == old(self).last_selection
                &&& final(self).clipboard == old(self).clipboard
                &&& final(self).completion_words == old(self).completion_words
            }),
    {
        let chars = chars_of(content);
        self.insert_chars(&chars)
    }

    /// Puts `c` into the text at the cursor; see `insert_chars`.
    pub fn insert_char(&mut self, c: char) -> (r: Result<(), EditorError>)
        requires
            old(self).wf(),
            old(self).undo_tree.wf(),
        ensures
            old(self).text().len() < usize::MAX <==> r is Ok,
            r is Err ==> *final(self) == *old(self),
            r is Ok ==> ({
                let p = old(self).pos();
                &&& final(self).wf()
                &&& final(self).undo_tree.wf()
                &&& old(self).keeps_frame(final(self))
                &&& final(self).text() == spec_insert(old(self).text(), p, seq![c])
                &&& final(self).pos() == landing(final(self).text(), p + 1, old(self).inserting())
                &&& old(self).inserting() ==> final(self).pos() == p + 1
                &&& final(self).undo_tree.edits() == old(self).undo_tree.edits().take(
                    old(self).undo_tree.insert_index as int,
                ).push((false, p, p + 1, Seq::empty()))
                &&& final(self).undo_tree.insert_index == old(self).undo_tree.insert_index + 1
                &&& final(self).last_selection == old(self).last_selection
                &&& final(self).clipboard == old(self).clipboard
                &&& final(self).completion_words == old(self).completion_words
            }),
    {
        let v = vec![c];
        proof {
            assert(v@ =~= seq![c]);
        }
        self.insert_chars(&v)
    }

    /// Breaks the line at the cursor, which goes to the start of the new line.
    pub fn insert_newline(&mut self) -> (r: Result<(), EditorError>)
        requires
            old(self).wf(),
            old(self).undo_tree.wf(),
        ensures
            old(self).text().len() < usize::MAX <==> r is Ok,
            r is Err ==> *final(self) == *old(self),
            r is Ok ==> ({
                let p = old(self).pos();
                &&& final(self).wf()
                &&& final(self).undo_tree.wf()
                &&& old(self).keeps_frame(final(self))
                &&& final(self).text() == spec_insert(old(self).text(), p, seq!['\n'])
                &&& final(self).pos() == p + 1
                &&& final(self).undo_tree.edits() == old(self).undo_tree.edits().take(
                    old(self).undo_tree.insert_index as int,
                ).push((false, p, p + 1, Seq::empty()))
            }),
    {
        let v = vec!['\n'];
        proof {
            assert(v@ =~= seq!['\n']);
        }
        let ghost p = self.pos();
        let ghost s0 = self.text();
        proof {
            self.lemma_landing_at_cursor();
        }
        let r = self.insert_chars(&v);
        proof {
            if r is Ok {
                let t = self.text();
                assert(s0.take(p).len() == p);
                assert(t[p] == (s0.take(p) + seq!['\n'])[p]);
                assert(t[p] == '\n');
                crate::editor::lemma_landing_after_newline(t, p + 1, self.inserting());
            }
        }
        r
    }

    /// Puts the clipboard's text into the text at the cursor; see `insert_chars`.
    pub fn paste(&mut self) -> (r: Result<(), EditorError>)
        requires
            old(self).wf(),
            old(self).undo_tree.wf(),
        ensures
            old(self).text().len() + old(self).clipboard.content@.len() <= usize::MAX <==> r is Ok,
            r is Err ==> *final(self) == *old(self),
            r is Ok ==> ({
                let p = old(self).pos();
                &&& final(self).wf()
                &&& final(self).undo_tree.wf()
                &&& final(self).text() == spec_insert(
                    old(self).text(),
                    p,
                    old(self).clipboard.content@,
                )
                &&& final(self).pos() == landing(
                    final(self).text(),
                    p + old(self).clipboard.content@.len(),
                    old(self).inserting(),
                )
                &&& old(self).inserting() ==> final(self).pos() == p
                    + old(self).clipboard.content@.len()
                &&& old(self).keeps_frame(final(self))
                &&& final(self).undo_tree.edits() == old(self).undo_tree.edits().take(
                    old(self).undo_tree.insert_index as int,
                ).push((false, p, p + old(self).clipboard.content@.len(), Seq::empty()))
                &&& final(self).undo_tree.insert_index == old(self).undo_tree.insert_index + 1
                &&& final(self).clipboard == old(self).clipboard
                &&& final(self).last_selection == old(self).last_selection
                &&& final(self).completion_words == old(self).completion_words
            }),
    {
        let content = slice_of(&self.clipboard.content, 0, self.clipboard.content.len());
        proof {
            assert(content@ =~= self.clipboard.content@);
        }
        self.insert_chars(&content)
    }

    /// Removes the characters in `from..to` (either order, pulled into the
    /// text) from the current buffer and returns them; the cursor fields are
    /// left as they are.
    pub fn delete(&mut self, from: usize, to: usize) -> (r: Vec<char>)
        requires
            old(self).frame_ok(),
        ensures
            final(self).frame_ok(),
            old(self).keeps_frame(final(self)),
            ({
                let s = old(self).text();
                let lo = delete_low(s, from as int, to as int);
                let hi = delete_high(s, from as int, to as int);
                &&& r@ == s.subrange(lo, hi)
                &&& final(self).text() == spec_remove(s, lo, hi)
            }),
            final(self).cur().screen_cursor_position == old(self).cur().screen_cursor_position,
            final(self).cur().offset == old(self).cur().offset,
            final(self).undo_tree == old(self).undo_tree,
    {
        let i = self.current_buffer_index;
        let n = self.buffers[i].content.0.len();
        let lo = if from < to {
            from
        } else {
            to
        };
        let hi = if from < to {
            to
        } else {
            from
        };
        let hi = if hi < n {
            hi
        } else {
            n
        };
        let lo = if lo < hi {
            lo
        } else {
            hi
        };
        let deleted = slice_of(&self.buffers[i].content.0, lo, hi);
        let text = removed(&self.buffers[i].content.0, lo, hi);
        self.set_text(text);
        deleted
    }

    /// Backspace: removes the character before the cursor (at column 0 the
    /// line break, joining the line to the previous one; after a tab, up to
    /// four characters of the tab run) and moves the cursor back over it.
    pub fn delete_char(&mut self) -> (r: Result<(), EditorError>)
        requires
            old(self).wf(),
        ensures
            r is Ok,
            final(self).wf(),
            old(self).pos() == 0 ==> *final(self) == *old(self),
            old(self).pos() > 0 ==> ({
                let s = old(self).text();
                let p = old(self).pos();
                let k = backspace_width(s, p, old(self).cur().col() as int);
                &&& old(self).keeps_frame(final(self))
                &&& final(self).text() == spec_remove(s, p - k, p)
                &&& final(self).pos() == landing(final(self).text(), p - k, old(self).inserting())
                &&& final(self).undo_tree == old(self).undo_tree
                &&& final(self).clipboard == old(self).clipboard
            }),
    {
        let p = self.raw_position();
        if p == 0 {
            return Ok(());
        }
        let i = self.current_buffer_index;
        let n = self.buffers[i].content.0.len();
        proof {
            lemma_count_nl_le_len(self.text());
            lemma_line_shape(self.text(), self.cur().line());
        }
        let x = self.buffers[i].x();
        let k: usize = if x > 0 && self.buffers[i].content.0[p - 1] == '\t' {
            if x < 4 {
                x
            } else {
                4
            }
        } else {
            1
        };
        let text = removed(&self.buffers[i].content.0, p - k, p);
        self.set_text(text);
        self.move_to_raw(p - k);
        Ok(())
    }
}

/// Offset where a line is opened from cursor offset `p`: just past the `n`-th
/// (from 0) newline at or after `p` for `n >= 0`, or just past the `-n`-th
/// newline before `p` for negative `n`; the end of the text, or its start,
/// when there is no such newline.
pub open spec fn open_line_at(s: Seq<char>, p: int, n: int) -> int {
    if n >= 0 {
        match occurrence_from(s, '\n', p, n as nat) {
            Some(k) => k + 1,
            None => s.len() as int,
        }
    } else {
        match occurrence_below(s, '\n', p, (-n - 1) as nat) {
            Some(k) => k + 1,
            None => 0,
        }
    }
}

impl Editor {
    /// Applies again, backward, the last edit that can be undone, and keeps
    /// its inverse in its place so that redo can apply it.
    pub fn undo(&mut self) -> (r: Result<(), EditorError>)
        requires
            old(self).wf(),
            old(self).undo_tree.wf(),
        ensures
            final(self).wf(),
            final(self).undo_tree.wf(),
            old(self).undo_tree.insert_index == 0 ==> r is Ok && *final(self) == *old(self),
            old(self).undo_tree.insert_index > 0 ==> ({
                let i = old(self).undo_tree.insert_index - 1;
                let a = old(self).undo_tree.edits()[i];
                let s = old(self).text();
                &&& (edit_fits(a, s) <==> r is Ok)
                &&& r is Err ==> *final(self) == *old(self)
                &&& r is Ok ==> {
                    &&& old(self).keeps_frame(final(self))
                    &&& final(self).text() == apply_edit(a, s)
                    &&& final(self).pos() == landing(
                        final(self).text(),
                        edit_cursor(a, s),
                        old(self).inserting(),
                    )
                    &&& final(self).undo_tree.insert_index == i
                    &&& final(self).undo_tree.edits() == old(self).undo_tree.edits().update(
                        i,
                        inverse_edit(a, s),
                    )
                }
            }),
    {
        let idx = self.undo_tree.insert_index;
        if idx == 0 {
            return Ok(());
        }
        let i = self.current_buffer_index;
        let n = self.buffers[i].content.0.len();
        let fits = match &self.undo_tree.actions[idx - 1] {
            Action::Insert(_, c) => c.len() <= usize::MAX - n,
            Action::Delete(_, _) => true,
        };
        if !fits {
            return Err(EditorError::OutOfBounds(idx - 1));
        }
        match self.undo_tree.undo() {
            Some(action) => match action.perform(self) {
                Ok(inverse) => {
                    self.undo_tree.replace_undo(inverse);
                    Ok(())
                },
                Err(e) => Err(e),
            },
            None => Ok(()),
        }
    }

    /// Applies the next edit that can be redone, and keeps its inverse in its
    /// place so that undo can apply it again.
    pub fn redo(&mut self) -> (r: Result<(), EditorError>)
        requires
            old(self).wf(),
            old(self).undo_tree.wf(),
        ensures
            final(self).wf(),
            final(self).undo_tree.wf(),
            old(self).undo_tree.insert_index == old(self).undo_tree.actions@.len() ==> r is Ok
                && *final(self) == *old(self),
            old(self).undo_tree.insert_index < old(self).undo_tree.actions@.len() ==> ({
                let i = old(self).undo_tree.insert_index as int;
                let a = old(self).undo_tree.edits()[i];
                let s = old(self).text();
                &&& (edit_fits(a, s) <==> r is Ok)
                &&& r is Err ==> *final(self) == *old(self)
                &&& r is Ok ==> {
                    &&& old(self).keeps_frame(final(self))
                    &&& final(self).text() == apply_edit(a, s)
                    &&& final(self).pos() == landing(
                        final(self).text(),
                        edit_cursor(a, s),
                        old(self).inserting(),
                    )
                    &&& final(self).undo_tree.insert_index == i + 1
                    &&& final(self).undo_tree.edits() == old(self).undo_tree.edits().update(
                        i,
                        inverse_edit(a, s),
                    )
                }
            }),
    {
        let idx = self.undo_tree.insert_index;
        if idx >= self.undo_tree.actions.len() {
            return Ok(());
        }
        let i = self.current_buffer_index;
        let n = self.buffers[i].content.0.len();
        let fits = match &self.undo_tree.actions[idx] {
            Action::Insert(_, c) => c.len() <= usize::MAX - n,
            Action::Delete(_, _) => true,
        };
        if !fits {
            return Err(EditorError::OutOfBounds(idx));
        }
        match self.undo_tree.redo() {
            Some(action) => match action.perform(self) {
                Ok(inverse) => {
                    self.undo_tree.replace_redo(inverse);
                    Ok(())
                },
                Err(e) => Err(e),
            },
            None => Ok(()),
        }
    }

    /// Opens an empty line after the `n`-th newline from the cursor (before
    /// the cursor for negative `n`), or at the end (start) of the text when
    /// there is none, records the edit, and leaves the cursor on the new line.
    pub fn insert_newline_in_n_lines(&mut self, n: i64) -> (r: Result<(), EditorError>)
        requires
            old(self).wf(),
            old(self).undo_tree.wf(),
        ensures
            final(self).wf(),
            final(self).undo_tree.wf(),
            old(self).text().len() < usize::MAX <==> r is Ok,
            r is Err ==> *final(self) == *old(self),
            r is Ok ==> ({
                let s = old(self).text();
                let q = open_line_at(s, old(self).pos(), n as int);
                &&& old(self).keeps_frame(final(self))
                &&& final(self).text() == spec_insert(s, q, seq!['\n'])
                &&& final(self).undo_tree.edits() == old(self).undo_tree.edits().take(
                    old(self).undo_tree.insert_index as int,
                ).push((false, q, q + 1, Seq::empty()))
                &&& final(self).pos() == if q == 0 || s[q - 1] == '\n' {
                    q
                } else {
                    q + 1
                }
                &&& final(self).cur().col() == 0
            }),
    {
        let i = self.current_buffer_index;
        let len = self.buffers[i].content.0.len();
        if len == usize::MAX {
            return Err(EditorError::OutOfBounds(len));
        }
        let p = self.raw_position();
        let q: usize = if n >= 0 {
            match occurrence_from_index(&self.buffers[i].content.0, '\n', p, n as u64) {
                Some(k) => k + 1,
                None => len,
            }
        } else {
            match occurrence_below_index(&self.buffers[i].content.0, '\n', p, (-(n + 1)) as u64) {
                Some(k) => k + 1,
                None => 0,
            }
        };
        let at_line_start = q == 0 || self.buffers[i].content.0[q - 1] == '\n';
        let ghost s0 = self.text();
        let newline = vec!['\n'];
        proof {
            assert(newline@ =~= seq!['\n']);
        }
        match Action::Insert(q, newline).perform(self) {
            Ok(inverse) => self.undo_tree.push(inverse),
            Err(_) => {},
        }
        proof {
            let t = self.text();
            assert(s0.take(q as int).len() == q);
            assert(t[q as int] == (s0.take(q as int) + seq!['\n'])[q as int]);
            crate::editor::lemma_landing_after_newline(t, q + 1, self.inserting());
            if q > 0 {
                assert(t[q - 1] == s0[q - 1]);
            }
        }
        if at_line_start {
            self.move_to_raw(q);
            proof {
                let t = self.text();
                if q > 0 {
                    crate::editor::lemma_landing_after_newline(t, q as int, self.inserting());
                } else {
                    crate::editor::lemma_landing_at_start(t, self.inserting());
                }
            }
        }
        proof {
            self.lemma_landing_at_cursor();
        }
        Ok(())
    }

    /// Deletes the selection, both ends included, and goes back to normal
    /// mode; refused outside visual mode.
    pub fn delete_selection(&mut self) -> (r: Result<(), EditorError>)
        requires
            old(self).wf(),
            old(self).undo_tree.wf(),
        ensures
            final(self).wf(),
            final(self).undo_tree.wf(),
            old(self).mode != Mode::Visual <==> r is Err,
            r is Err ==> r->Err_0 == EditorError::InvalidModeTransition && *final(self) == *old(
                self,
            ),
            r is Ok ==> ({
                let s = old(self).text();
                let sel = old(self).last_selection;
                let lo = if sel.start < sel.end { sel.start } else { sel.end };
                let hi = if sel.start < sel.end { sel.end } else { sel.start };
                let span = delete_span(s, landing(s, lo as int, false), landing(s, hi as int, false));
                &&& final(self).mode == Mode::Normal
                &&& final(self).text() == spec_remove(s, span.0, span.1)
                &&& final(self).clipboard.content@ == s.subrange(span.0, span.1)
                &&& final(self).last_selection.start == final(self).pos()
                &&& final(self).last_selection.end == final(self).pos()
            }),
    {
        if self.mode != Mode::Visual {
            return Err(EditorError::InvalidModeTransition);
        }
        let start = self.last_selection.start;
        let end = self.last_selection.end;
        let min = if start < end {
            start
        } else {
            end
        };
        let max = if start < end {
            end
        } else {
            start
        };
        let _ = Movement::ToRaw(min).perform(self);
        let _ = Movement::ToRaw(max).delete(self);
        self.mode = Mode::Normal;
        let p = self.raw_position();
        self.last_selection = Selection::at_cursor(p);
        Ok(())
    }

    /// Leaves insert mode for normal mode; a cursor past the last character
    /// of its line steps back onto it. Refused outside insert mode.
    pub fn leave_insert_mode(&mut self) -> (r: Result<(), EditorError>)
        requires
            old(self).wf(),
        ensures
            final(self).wf(),
            old(self).mode != Mode::Insert <==> r is Err,
            r is Err ==> r->Err_0 == EditorError::InvalidModeTransition && *final(self) == *old(
                self,
            ),
            r is Ok ==> ({
                let x = old(self).cur().col();
                &&& final(self).mode == Mode::Normal
                &&& final(self).text() == old(self).text()
                &&& final(self).cur().line() == old(self).cur().line()
                &&& final(self).cur().col() == if x > 0 && x == line_len(
                    old(self).text(),
                    old(self).cur().line(),
                ) {
                    x - 1
                } else {
                    x as int
                }
                &&& final(self).undo_tree == old(self).undo_tree
            }),
    {
        if self.mode != Mode::Insert {
            return Err(EditorError::InvalidModeTransition);
        }
        let i = self.current_buffer_index;
        let len = self.buffers[i].content.0.len();
        proof {
            lemma_count_nl_le_len(self.text());
            lemma_line_shape(self.text(), self.cur().line());
        }
        let x = self.buffers[i].x();
        let line_length = match self.buffers[i].current_line_length() {
            Ok(l) => l,
            Err(_) => 0,
        };
        if x > 0 && x == line_length {
            self.move_cursor(-1);
        }
        self.mode = Mode::Normal;
        Ok(())
    }

    /// Switches to `mode`: from normal mode to any mode (visual mode anchors
    /// the selection at the cursor), and back to normal mode from the others
    /// (from insert mode as `leave_insert_mode` does). Any other switch is refused.
    pub fn enter_mode(&mut self, mode: Mode) -> (r: Result<(), EditorError>)
        requires
            old(self).wf(),
        ensures
            final(self).wf(),
            final(self).text() == old(self).text(),
            final(self).undo_tree == old(self).undo_tree,
            r is Ok <==> (old(self).mode == Mode::Normal || mode == Mode::Normal || old(self).mode
                == mode),
            r is Err ==> r->Err_0 == EditorError::InvalidModeTransition && *final(self) == *old(
                self,
            ),
            r is Ok ==> final(self).mode == mode,
            r is Ok && old(self).mode != Mode::Insert ==> final(self).pos() == old(self).pos(),
            r is Ok && old(self).mode == Mode::Normal && mode == Mode::Visual
                ==> final(self).last_selection.start == old(self).pos()
                && final(self).last_selection.end == old(self).pos(),
    {
        if self.mode == mode {
            return Ok(());
        }
        if self.mode == Mode::Insert {
            if mode == Mode::Normal {
                return self.leave_insert_mode();
            }
            return Err(EditorError::InvalidModeTransition);
        }
        if self.mode != Mode::Normal && mode != Mode::Normal {
            return Err(EditorError::InvalidModeTransition);
        }
        if mode == Mode::Visual {
            let p = self.raw_position();
            self.last_selection = Selection::at_cursor(p);
        }
        self.mode = mode;
        Ok(())
    }

    /// Applies the operator that the pending mode names (delete or yank) with
    /// `movement` as its motion, then returns to normal mode whatever happened.
    pub fn apply_pending_operator(&mut self, movement: Movement) -> (r: Result<(), EditorError>)
        requires
            old(self).wf(),
            old(self).undo_tree.wf(),
        ensures
            final(self).wf(),
            final(self).undo_tree.wf(),
            (old(self).mode == Mode::NormalDelete || old(self).mode == Mode::NormalYank) <==> r is Ok,
            r is Err ==> r->Err_0 == EditorError::InvalidModeTransition && *final(self) == *old(
                self,
            ),
            r is Ok ==> final(self).mode == Mode::Normal,
            r is Ok ==> old(self).keeps_frame_but_mode(final(self)),
            old(self).mode == Mode::NormalYank ==> ({
                let s = old(self).text();
                let span = yank_span(s, old(self).pos(), motion_pos(movement, *old(self)));
                &&& final(self).text() == s
                &&& final(self).pos() == old(self).pos()
                &&& final(self).clipboard.content@ == s.subrange(span.0, span.1)
                &&& final(self).undo_tree == old(self).undo_tree
            }),
            old(self).mode == Mode::NormalDelete ==> ({
                let s = old(self).text();
                let span = delete_span(s, old(self).pos(), motion_pos(movement, *old(self)));
                &&& final(self).text() == spec_remove(s, span.0, span.1)
                &&& final(self).clipboard.content@ == s.subrange(span.0, span.1)
                &&& final(self).pos() == landing(final(self).text(), span.0, false)
                &&& final(self).undo_tree.edits() == old(self).undo_tree.edits().take(
                    old(self).undo_tree.insert_index as int,
                ).push((true, span.0, span.0, s.subrange(span.0, span.1)))
            }),
    {
        let operator = if self.mode == Mode::NormalDelete {
            Operator::Delete
        } else if self.mode == Mode::NormalYank {
            Operator::Yank
        } else {
            return Err(EditorError::InvalidModeTransition);
        };
        let _ = operator.execute(self, &movement);
        self.mode = Mode::Normal;
        Ok(())
    }
}

/// An operator that takes a motion as its argument.
#[derive(Debug, Clone, Copy, PartialEq, Eq, Structural)]
pub enum Operator {
    Delete,
    Yank,
}

impl Operator {
    /// Deletes or yanks over `movement`.
    pub fn execute(&self, editor: &mut Editor, movement: &Movement) -> (r: Result<(), EditorError>)
        requires
            old(editor).wf(),
            old(editor).undo_tree.wf(),
        ensures
            r is Ok,
            final(editor).wf(),
            final(editor).undo_tree.wf(),
            old(editor).keeps_frame(final(editor)),
            ({
                let s = old(editor).text();
                let q = motion_pos(*movement, *old(editor));
                match self {
                    Operator::Delete => {
                        let span = delete_span(s, old(editor).pos(), q);
                        &&& final(editor).text() == spec_remove(s, span.0, span.1)
                        &&& final(editor).clipboard.content@ == s.subrange(span.0, span.1)
                        &&& final(editor).pos() == landing(
                            final(editor).text(),
                            span.0,
                            old(editor).inserting(),
                        )
                        &&& final(editor).undo_tree.edits() == old(editor).undo_tree.edits().take(
                            old(editor).undo_tree.insert_index as int,
                        ).push((true, span.0, span.0, s.subrange(span.0, span.1)))
                    },
                    Operator::Yank => {
                        let span = yank_span(s, old(editor).pos(), q);
                        &&& final(editor).text() == s
                        &&& final(editor).pos() == old(editor).pos()
                        &&& final(editor).clipboard.content@ == s.subrange(span.0, span.1)
                        &&& final(editor).undo_tree == old(editor).undo_tree
                    },
                }
            }),
    {
        match self {
            Operator::Delete => (*movement).delete(editor),
            Operator::Yank => movement.yank(editor),
        }
    }
}

} // verus!
