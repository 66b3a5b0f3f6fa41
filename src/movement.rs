//! Motions, and the delete and yank operators that take a motion as argument.
use vstd::prelude::*;
use crate::actions::{slice_of, removed, spec_remove, Action};
use crate::buffer::{char_target, line_end_of, line_start_of, scroll_to};
use crate::editor::{clamp, clamp_offset, landing, landing_col, Editor};
use crate::error::EditorError;
use crate::modes::Mode;
use crate::text::{
    count_nl, last_column, lemma_count_nl_le_len, lemma_line_shape, line_end, line_of, line_start,
    offset_of,
};
use crate::words::{is_whitespace, nth_word, nth_word_end, whitespace};

verus! {

/// A computation from the cursor position to a new one.
#[derive(Debug, Clone, Copy)]
pub enum Movement {
    /// `n` characters along the line.
    Cursor(i64),
    /// `n` lines.
    Line(i64),
    /// `n` word starts.
    Word(i64),
    /// `n` word ends.
    WordEnd(i64),
    /// `n` characters through the whole text.
    CursorUnbounded(i64),
    /// To an absolute offset.
    ToRaw(usize),
    EndOfLine,
    BeginningOfLine,
    FirstNonWhitespaceOfLine,
    /// Onto an occurrence of `char`.
    Char { char: char, delta: i64 },
    /// Next to an occurrence of `char`, on the side of the cursor.
    BeforeChar { char: char, delta: i64 },
    BeginningOfFile,
    EndOfFile,
}

/// First index in `j..e` that holds no white space, or `e`.
pub open spec fn first_non_blank_from(s: Seq<char>, j: int, e: int) -> int
    decreases e - j,
{
    if j >= e {
        e
    } else if !whitespace(s[j]) {
        j
    } else {
        first_non_blank_from(s, j + 1, e)
    }
}

/// Column of the first character of line `y` that is no white space, or 0.
pub open spec fn first_non_blank_col(s: Seq<char>, y: nat) -> int {
    let k = first_non_blank_from(s, line_start(s, y), line_end(s, y));
    if k < line_end(s, y) {
        k - line_start(s, y)
    } else {
        0
    }
}

/// Offset that a motion sends the cursor to from offset `p` of `s`, for the
/// motions that name one; `None` for a search that finds nothing.
pub open spec fn raw_target(m: Movement, s: Seq<char>, p: int) -> Option<int> {
    match m {
        Movement::CursorUnbounded(d) => Some(if p + d < 0 { 0 } else { p + d }),
        Movement::ToRaw(t) => Some(t as int),
        Movement::Word(d) => Some(nth_word(s, p, d as int)),
        Movement::WordEnd(d) => Some(nth_word_end(s, p, d as int)),
        Movement::Char { char, delta } => char_target(s, p, char, delta as int),
        Movement::BeforeChar { char, delta } => match char_target(s, p, char, delta as int) {
            Some(t) => Some(
                if delta >= 0 {
                    if t > 0 { t - 1 } else { 0 }
                } else {
                    t + 1
                },
            ),
            None => None,
        },
        Movement::BeginningOfFile => Some(0),
        Movement::EndOfFile => Some(if s.len() > 0 { s.len() - 1 } else { 0 }),
        _ => None,
    }
}

/// Line and column where motion `m` leaves the cursor of `e`.
pub open spec fn motion_dest(m: Movement, e: Editor) -> (int, int) {
    let s = e.text();
    let y = e.cur().line() as int;
    let x = e.cur().col() as int;
    let ins = e.inserting();
    match m {
        Movement::Line(d) => {
            let ny = clamp(y + d, 0, count_nl(s) as int);
            let upper = last_column(s, ny as nat, ins);
            (ny, if x <= upper { x } else { upper })
        },
        Movement::Cursor(d) => (y, clamp(x + d, 0, last_column(s, y as nat, ins))),
        Movement::EndOfLine => (y, last_column(s, y as nat, ins)),
        Movement::BeginningOfLine => (y, 0),
        Movement::FirstNonWhitespaceOfLine => (
            y,
            clamp(first_non_blank_col(s, y as nat), 0, last_column(s, y as nat, ins)),
        ),
        _ => match raw_target(m, s, e.pos()) {
            Some(t) => {
                let u = clamp_offset(s, t);
                (line_of(s, u) as int, landing_col(s, u, ins))
            },
            None => (y, x),
        },
    }
}

/// Offset where motion `m` leaves the cursor of `e`.
pub open spec fn motion_pos(m: Movement, e: Editor) -> int {
    offset_of(e.text(), motion_dest(m, e).0 as nat, motion_dest(m, e).1 as nat)
}

/// Range that deleting from offset `p` to offset `q` removes from `s`: the
/// character at `q` too when the motion went forward, up to the end of `s`.
pub open spec fn delete_span(s: Seq<char>, p: int, q: int) -> (int, int) {
    let from = if p < q { p } else { q };
    let to = if p > q { p } else { q + 1 };
    (from, if to < s.len() { to } else { s.len() as int })
}

/// Range that yanking from offset `p` to offset `q` copies from `s`: both ends included.
pub open spec fn yank_span(s: Seq<char>, p: int, q: int) -> (int, int) {
    let from = if p < q { p } else { q };
    let to = if p > q { p + 1 } else { q + 1 };
    (from, if to < s.len() { to } else { s.len() as int })
}

/// Column of the first character of line `y` that is no white space, or 0.
fn first_non_blank_column(s: &Vec<char>, y: usize) -> (r: usize)
    requires
        y <= count_nl(s@),
    ensures
        r == first_non_blank_col(s@, y as nat),
{
    let a = line_start_of(s, y);
    let e = line_end_of(s, y);
    let mut k = a;
    while k < e
        invariant
            a <= k <= e <= s@.len(),
            a == line_start(s@, y as nat),
            e == line_end(s@, y as nat),
            first_non_blank_from(s@, a as int, e as int) == first_non_blank_from(
                s@,
                k as int,
                e as int,
            ),
        decreases e - k,
    {
        if !is_whitespace(s[k]) {
            return k - a;
        }
        k = k + 1;
    }
    0
}

impl Movement {
    /// Moves the cursor of `editor` as the motion says, scrolling the viewport
    /// no further than needed; text, mode and history are left alone.
    pub fn perform(&self, editor: &mut Editor) -> (r: Result<(), EditorError>)
        requires
            old(editor).wf(),
        ensures
            r is Ok,
            final(editor).wf(),
            old(editor).same_but_view(final(editor)),
            final(editor).cur().line() == motion_dest(*self, *old(editor)).0,
            final(editor).cur().col() == motion_dest(*self, *old(editor)).1,
            final(editor).pos() == motion_pos(*self, *old(editor)),
            final(editor).cur().offset.y == scroll_to(
                old(editor).cur().offset.y as nat,
                final(editor).cur().line(),
                old(editor).screen.heigth as nat,
            ),
            final(editor).cur().offset.x == scroll_to(
                old(editor).cur().offset.x as nat,
                final(editor).cur().col(),
                old(editor).screen.width as nat,
            ),
    {
        let ghost e0 = *editor;
        let inserting = editor.mode == Mode::Insert;
        let p = editor.raw_position();
        let i = editor.current_buffer_index;
        let len = editor.buffers[i].content.0.len();
        proof {
            lemma_count_nl_le_len(e0.text());
            lemma_line_shape(e0.text(), e0.cur().line());
        }
        let y = editor.buffers[i].y();
        match self {
            Movement::Line(d) => editor.move_line(*d),
            Movement::Cursor(d) => editor.move_cursor(*d),
            Movement::EndOfLine => {
                let upper = crate::editor::last_column_of(&editor.buffers[i].content.0, y, inserting);
                editor.place_cursor(y, upper);
            },
            Movement::BeginningOfLine => {
                editor.place_cursor(y, 0);
            },
            Movement::FirstNonWhitespaceOfLine => {
                let s = &editor.buffers[i].content.0;
                let upper = crate::editor::last_column_of(s, y, inserting);
                let k = first_non_blank_column(s, y);
                let col = if k <= upper {
                    k
                } else {
                    upper
                };
                editor.place_cursor(y, col);
            },
            Movement::CursorUnbounded(d) => {
                let wanted: i128 = p as i128 + *d as i128;
                let n = editor.buffers[i].content.0.len();
                let t: usize = if wanted < 0 {
                    0
                } else if wanted > n as i128 {
                    n
                } else {
                    wanted as usize
                };
                editor.move_to_raw(t);
            },
            Movement::ToRaw(t) => editor.move_to_raw(*t),
            Movement::Word(d) => {
                let t = editor.buffers[i].nth_word_index(*d);
                editor.move_to_raw(t);
            },
            Movement::WordEnd(d) => {
                let t = editor.buffers[i].nth_word_end_index(*d);
                editor.move_to_raw(t);
            },
            Movement::Char { char, delta } => {
                match editor.buffers[i].next_char_index(*char, *delta) {
                    Some(t) => editor.move_to_raw(t),
                    None => {},
                }
            },
            Movement::BeforeChar { char, delta } => {
                match editor.buffers[i].next_char_index(*char, *delta) {
                    Some(t) => {
                        if *delta >= 0 {
                            editor.move_to_raw(if t > 0 { t - 1 } else { 0 });
                        } else {
                            let n = editor.buffers[i].content.0.len();
                            editor.move_to_raw(if t < n { t + 1 } else { n });
                        }
                    },
                    None => {},
                }
            },
            Movement::BeginningOfFile => editor.move_to_raw(0),
            Movement::EndOfFile => {
                let n = editor.buffers[i].content.0.len();
                editor.move_to_raw(if n > 0 { n - 1 } else { 0 });
            },
        }
        Ok(())
    }

    /// `perform`, taking the motion by value.
    pub fn do_move(self, editor: &mut Editor) -> (r: Result<(), EditorError>)
        requires
            old(editor).wf(),
        ensures
            r is Ok,
            final(editor).wf(),
            old(editor).same_but_view(final(editor)),
            final(editor).cur().line() == motion_dest(self, *old(editor)).0,
            final(editor).cur().col() == motion_dest(self, *old(editor)).1,
            final(editor).pos() == motion_pos(self, *old(editor)),
            final(editor).cur().offset.y == scroll_to(
                old(editor).cur().offset.y as nat,
                final(editor).cur().line(),
                old(editor).screen.heigth as nat,
            ),
            final(editor).cur().offset.x == scroll_to(
                old(editor).cur().offset.x as nat,
                final(editor).cur().col(),
                old(editor).screen.width as nat,
            ),
    {
        self.perform(editor)
    }

    /// Moves in visual mode, extending the selection to the new cursor
    /// position; refused outside visual mode.
    pub fn visual_move(self, editor: &mut Editor) -> (r: Result<(), EditorError>)
        requires
            old(editor).wf(),
        ensures
            final(editor).wf(),
            old(editor).mode != Mode::Visual <==> r is Err,
            r is Err ==> r->Err_0 == EditorError::InvalidModeTransition && *final(editor) == *old(
                editor,
            ),
            r is Ok ==> ({
                &&& final(editor).cur().line() == motion_dest(self, *old(editor)).0
                &&& final(editor).cur().col() == motion_dest(self, *old(editor)).1
                &&& final(editor).cur().offset.y == scroll_to(
                    old(editor).cur().offset.y as nat,
                    final(editor).cur().line(),
                    old(editor).screen.heigth as nat,
                )
                &&& final(editor).cur().offset.x == scroll_to(
                    old(editor).cur().offset.x as nat,
                    final(editor).cur().col(),
                    old(editor).screen.width as nat,
                )
                &&& final(editor).last_selection.start == old(editor).last_selection.start
                &&& final(editor).last_selection.end == final(editor).pos()
                &&& old(editor).keeps_frame(final(editor))
                &&& final(editor).text() == old(editor).text()
            }),
    {
        if editor.mode != Mode::Visual {
            return Err(EditorError::InvalidModeTransition);
        }
        let _ = self.perform(editor);
        let p = editor.raw_position();
        editor.last_selection.end = p;
        Ok(())
    }

    /// Deletes from the cursor to where the motion goes (the landing character
    /// included when it goes forward), puts what went into the clipboard,
    /// leaves the cursor at the start of the range, and records the edit.
    pub fn delete(self, editor: &mut Editor) -> (r: Result<(), EditorError>)
        requires
            old(editor).wf(),
            old(editor).undo_tree.wf(),
        ensures
            r is Ok,
            final(editor).wf(),
            final(editor).undo_tree.wf(),
            old(editor).keeps_frame(final(editor)),
            final(editor).last_selection == old(editor).last_selection,
            final(editor).completion_words == old(editor).completion_words,
            ({
                let s = old(editor).text();
                let span = delete_span(s, old(editor).pos(), motion_pos(self, *old(editor)));
                &&& final(editor).text() == spec_remove(s, span.0, span.1)
                &&& final(editor).clipboard.content@ == s.subrange(span.0, span.1)
                &&& final(editor).pos() == landing(final(editor).text(), span.0, old(editor).inserting())
                &&& final(editor).undo_tree.edits() == old(editor).undo_tree.edits().take(
                    old(editor).undo_tree.insert_index as int,
                ).push((true, span.0, span.0, s.subrange(span.0, span.1)))
            }),
    {
        let old_position = editor.raw_position();
        let _ = self.perform(editor);
        let new_position = editor.raw_position();
        let i = editor.current_buffer_index;
        let n = editor.buffers[i].content.0.len();
        let from = if old_position < new_position {
            old_position
        } else {
            new_position
        };
        let to = if old_position > new_position {
            old_position
        } else if new_position < n {
            new_position + 1
        } else {
            n
        };
        let deleted = slice_of(&editor.buffers[i].content.0, from, to);
        let kept = removed(&editor.buffers[i].content.0, from, to);
        editor.clipboard.content = slice_of(&editor.buffers[i].content.0, from, to);
        editor.set_text(kept);
        editor.move_to_raw(from);
        editor.undo_tree.push(Action::Insert(from, deleted));
        Ok(())
    }

    /// Copies from the cursor to where the motion goes, both ends included,
    /// into the clipboard; the cursor comes back and the text is left alone.
    pub fn yank(&self, editor: &mut Editor) -> (r: Result<(), EditorError>)
        requires
            old(editor).wf(),
        ensures
            r is Ok,
            final(editor).wf(),
            old(editor).keeps_frame(final(editor)),
            final(editor).text() == old(editor).text(),
            final(editor).pos() == old(editor).pos(),
            final(editor).undo_tree == old(editor).undo_tree,
            final(editor).last_selection == old(editor).last_selection,
            ({
                let s = old(editor).text();
                let span = yank_span(s, old(editor).pos(), motion_pos(*self, *old(editor)));
                final(editor).clipboard.content@ == s.subrange(span.0, span.1)
            }),
    {
        let ghost e0 = *editor;
        let old_position = editor.raw_position();
        let _ = self.perform(editor);
        let new_position = editor.raw_position();
        let i = editor.current_buffer_index;
        let n = editor.buffers[i].content.0.len();
        let from = if old_position < new_position {
            old_position
        } else {
            new_position
        };
        let high = if old_position > new_position {
            old_position
        } else {
            new_position
        };
        let to = if high < n {
            high + 1
        } else {
            n
        };
        editor.clipboard.content = slice_of(&editor.buffers[i].content.0, from, to);
        editor.move_to_raw(old_position);
        proof {
            e0.lemma_landing_at_cursor();
        }
        Ok(())
    }
}

} // verus!
