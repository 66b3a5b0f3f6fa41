//! The editor: its buffers, mode, selection, clipboard, and the one routine
//! that moves the cursor and the viewport together.
use vstd::prelude::*;
use crate::actions::UndoTree;
use crate::buffer::{line_end_of, line_start_of, locate, scroll_to, Buffer, count_newlines};
use crate::completion::CompletionWords;
use crate::error::EditorError;
use crate::modes::Mode;
use crate::text::{
    count_nl, last_column, lemma_count_nl_le_len, lemma_line_of_bounds, lemma_line_shape, line_count, line_len, line_of,
    line_start, offset_of,
};
use crate::ui::Screen;

verus! {

/// The text that delete and yank leave behind for paste.
#[derive(Debug, Default)]
pub struct Clipboard {
    pub content: Vec<char>,
}

/// Range between where visual mode began and where the cursor went since;
/// `start` and `end` may come in either order.
#[derive(Debug, Default, Clone, Copy)]
pub struct Selection {
    pub start: usize,
    pub end: usize,
}

impl Selection {
    /// An empty selection anchored at `raw_position`.
    pub fn at_cursor(raw_position: usize) -> (r: Selection)
        ensures
            r.start == raw_position,
            r.end == raw_position,
    {
        Selection { start: raw_position, end: raw_position }
    }

    pub open spec fn spec_contains(&self, raw_position: int) -> bool {
        &&& self.start <= raw_position || self.end <= raw_position
        &&& raw_position <= self.start || raw_position <= self.end
    }

    /// Whether `raw_position` lies between the two ends, both included.
    pub fn contains(&self, raw_position: usize) -> (r: bool)
        ensures
            r == self.spec_contains(raw_position as int),
    {
        let min = if self.start < self.end {
            self.start
        } else {
            self.end
        };
        let max = if self.start < self.end {
            self.end
        } else {
            self.start
        };
        min <= raw_position && raw_position <= max
    }
}

/// The editor state that every command works on.
#[derive(Debug)]
pub struct Editor {
    pub buffers: Vec<Buffer>,
    pub screen: Screen,
    pub current_buffer_index: usize,
    pub mode: Mode,
    pub last_selection: Selection,
    pub clipboard: Clipboard,
    pub undo_tree: UndoTree,
    pub completion_words: Option<CompletionWords>,
}

/// Gathers what an editor is built from.
#[derive(Debug, Default)]
pub struct EditorBuilder {
    pub buffers: Option<Vec<Buffer>>,
    pub screen: Option<Screen>,
}

impl EditorBuilder {
    pub fn new() -> (r: EditorBuilder)
        ensures
            r.buffers is None,
            r.screen is None,
    {
        EditorBuilder { buffers: None, screen: None }
    }

    pub fn buffers(&mut self, buffers: Vec<Buffer>) -> (r: &mut EditorBuilder)
        ensures
            r.buffers == Some(buffers),
            r.screen == old(self).screen,
            *final(self) == *final(r),
    {
        self.buffers = Some(buffers);
        self
    }

    pub fn screen(&mut self, screen: Screen) -> (r: &mut EditorBuilder)
        ensures
            r.screen == Some(screen),
            r.buffers == old(self).buffers,
            *final(self) == *final(r),
    {
        self.screen = Some(screen);
        self
    }

    /// An editor in normal mode on the first buffer, with an empty history and
    /// the screen given (a text area of 80 by 24 cells if none was); fails
    /// when no buffer was given.
    pub fn build(&mut self) -> (r: Result<Editor, EditorError>)
        ensures
            final(self).buffers is None,
            r is Ok <==> (old(self).buffers is Some && old(self).buffers->Some_0@.len() > 0),
            r is Err ==> r->Err_0 == EditorError::EmptyBuffers,
            r is Ok ==> ({
                let e = r->Ok_0;
                &&& e.buffers@ == old(self).buffers->Some_0@
                &&& e.current_buffer_index == 0
                &&& e.mode == Mode::Normal
                &&& e.undo_tree.actions@.len() == 0
                &&& e.undo_tree.insert_index == 0
                &&& e.completion_words is None
                &&& e.clipboard.content@.len() == 0
                &&& old(self).screen is Some ==> e.screen == old(self).screen->Some_0
                &&& old(self).screen is None ==> e.screen.width == 80 && e.screen.heigth == 24
            }),
    {
        match self.buffers.take() {
            None => Err(EditorError::EmptyBuffers),
            Some(buffers) => {
                if buffers.len() == 0 {
                    return Err(EditorError::EmptyBuffers);
                }
                let screen = match self.screen {
                    Some(s) => s,
                    None => Screen::with_size(80, 24),
                };
                Ok(
                    Editor {
                        buffers,
                        screen,
                        current_buffer_index: 0,
                        mode: Mode::Normal,
                        last_selection: Selection { start: 0, end: 0 },
                        clipboard: Clipboard { content: Vec::new() },
                        undo_tree: UndoTree::new(),
                        completion_words: None,
                    },
                )
            },
        }
    }
}

/// Column that offset `t` lands on when the cursor is sent there: its column,
/// pulled back to the last one the mode allows.
pub open spec fn landing_col(s: Seq<char>, t: int, inserting: bool) -> int {
    let y = line_of(s, t);
    let c = t - line_start(s, y);
    if c <= last_column(s, y, inserting) {
        c
    } else {
        last_column(s, y, inserting)
    }
}

/// Offset `t` pulled into the text: `len(s)` at most.
pub open spec fn clamp_offset(s: Seq<char>, t: int) -> int {
    if t <= s.len() {
        t
    } else {
        s.len() as int
    }
}

/// Where the cursor lands when sent to offset `t`.
pub open spec fn landing(s: Seq<char>, t: int, inserting: bool) -> int {
    let u = clamp_offset(s, t);
    offset_of(s, line_of(s, u), landing_col(s, u, inserting) as nat)
}

/// While inserting, the cursor lands exactly on any offset of the text.
pub proof fn lemma_landing_inserting(s: Seq<char>, t: int)
    requires
        0 <= t <= s.len(),
    ensures
        landing(s, t, true) == t,
{
    lemma_line_of_bounds(s, t);
}

/// An offset just after a newline is the start of a line, where the cursor lands exactly.
pub proof fn lemma_landing_after_newline(s: Seq<char>, t: int, inserting: bool)
    requires
        0 < t <= s.len(),
        s[t - 1] == '\n',
    ensures
        landing(s, t, inserting) == t,
        landing_col(s, t, inserting) == 0,
{
    lemma_line_of_bounds(s, t);
    crate::text::lemma_count_nl_step(s, t - 1);
    crate::buffer::lemma_line_start_unique(s, line_of(s, t), t);
    lemma_line_shape(s, line_of(s, t));
}

/// The cursor sent to offset 0 lands there.
pub proof fn lemma_landing_at_start(s: Seq<char>, inserting: bool)
    ensures
        landing(s, 0, inserting) == 0,
        landing_col(s, 0, inserting) == 0,
{
    assert(s.take(0) =~= Seq::<char>::empty());
    lemma_line_shape(s, 0);
}

/// `v` pulled into `lo..=hi`.
pub open spec fn clamp(v: int, lo: int, hi: int) -> int {
    if v < lo {
        lo
    } else if v > hi {
        hi
    } else {
        v
    }
}

/// Last column the cursor may take on line `y`.
pub fn last_column_of(s: &Vec<char>, y: usize, inserting: bool) -> (r: usize)
    requires
        y <= count_nl(s@),
    ensures
        r == last_column(s@, y as nat, inserting),
        r <= line_len(s@, y as nat),
{
    let len = line_end_of(s, y) - line_start_of(s, y);
    if inserting {
        len
    } else if len > 0 {
        len - 1
    } else {
        0
    }
}

impl Editor {
    pub open spec fn cur(&self) -> Buffer {
        self.buffers@[self.current_buffer_index as int]
    }

    pub open spec fn text(&self) -> Seq<char> {
        self.cur().content@
    }

    pub open spec fn inserting(&self) -> bool {
        self.mode == Mode::Insert
    }

    /// Absolute offset of the cursor in the current buffer.
    pub open spec fn pos(&self) -> int {
        self.cur().position()
    }

    /// A current buffer exists, the viewport has cells, and the cursor lies on
    /// the text and inside the viewport.
    pub open spec fn wf(&self) -> bool {
        &&& self.frame_ok()
        &&& self.cur().wf(self.screen.width as nat, self.screen.heigth as nat)
        &&& self.cur().col() <= last_column(self.text(), self.cur().line(), self.inserting())
    }

    /// A current buffer exists and the viewport has cells.
    pub open spec fn frame_ok(&self) -> bool {
        &&& self.current_buffer_index < self.buffers@.len()
        &&& self.screen.width > 0
        &&& self.screen.heigth > 0
    }

    /// `other` keeps the buffers but the current one, the screen, the mode and
    /// the current buffer's file name.
    pub open spec fn keeps_frame(&self, other: &Editor) -> bool {
        &&& other.buffers@.len() == self.buffers@.len()
        &&& forall|i: int|
            0 <= i < self.buffers@.len() && i != self.current_buffer_index
                ==> other.buffers@[i] == self.buffers@[i]
        &&& other.current_buffer_index == self.current_buffer_index
        &&& other.cur().file_name == self.cur().file_name
        &&& other.screen == self.screen
        &&& other.mode == self.mode
    }

    /// `other` keeps what `keeps_frame` asks for, but perhaps the mode.
    pub open spec fn keeps_frame_but_mode(&self, other: &Editor) -> bool {
        &&& other.buffers@.len() == self.buffers@.len()
        &&& forall|i: int|
            0 <= i < self.buffers@.len() && i != self.current_buffer_index
                ==> other.buffers@[i] == self.buffers@[i]
        &&& other.current_buffer_index == self.current_buffer_index
        &&& other.cur().file_name == self.cur().file_name
        &&& other.screen == self.screen
    }

    /// `other` differs from `self` in the current buffer's cursor and viewport at most.
    pub open spec fn same_but_view(&self, other: &Editor) -> bool {
        &&& self.keeps_frame(other)
        &&& other.cur().content == self.cur().content
        &&& other.last_selection == self.last_selection
        &&& other.clipboard == self.clipboard
        &&& other.undo_tree == self.undo_tree
        &&& other.completion_words == self.completion_words
    }

    /// Whether the editor is in a state that commands accept.
    pub fn is_ready(&self) -> (r: bool)
        ensures
            r == self.wf(),
    {
        if self.current_buffer_index >= self.buffers.len() || self.screen.width == 0
            || self.screen.heigth == 0 {
            return false;
        }
        let b = &self.buffers[self.current_buffer_index];
        let w = self.screen.width;
        let h = self.screen.heigth;
        if b.screen_cursor_position.x >= w || b.screen_cursor_position.y >= h {
            return false;
        }
        let s = &b.content.0;
        let lines = count_newlines(s);
        if b.offset.y > lines || b.screen_cursor_position.y as usize > lines - b.offset.y {
            return false;
        }
        let y = b.y();
        let upper = last_column_of(s, y, self.mode == Mode::Insert);
        b.offset.x <= upper && b.screen_cursor_position.x as usize <= upper - b.offset.x
    }

    pub fn current_buffer(&self) -> (r: &Buffer)
        requires
            self.current_buffer_index < self.buffers@.len(),
        ensures
            *r == self.cur(),
    {
        &self.buffers[self.current_buffer_index]
    }

    pub fn current_buffer_mut(&mut self) -> (r: &mut Buffer)
        requires
            old(self).current_buffer_index < old(self).buffers@.len(),
        ensures
            *r == old(self).cur(),
            final(self).buffers@ == old(self).buffers@.update(
                old(self).current_buffer_index as int,
                *final(r),
            ),
            final(self).current_buffer_index == old(self).current_buffer_index,
            final(self).screen == old(self).screen,
            final(self).mode == old(self).mode,
            final(self).last_selection == old(self).last_selection,
            final(self).clipboard == old(self).clipboard,
            final(self).undo_tree == old(self).undo_tree,
            final(self).completion_words == old(self).completion_words,
    {
        let i = self.current_buffer_index;
        &mut self.buffers[i]
    }

    pub fn screen(&self) -> (r: &Screen)
        ensures
            *r == self.screen,
    {
        &self.screen
    }

    pub fn screen_mut(&mut self) -> (r: &mut Screen)
        ensures
            *r == old(self).screen,
            final(self).screen == *final(r),
            final(self).buffers == old(self).buffers,
            final(self).current_buffer_index == old(self).current_buffer_index,
            final(self).mode == old(self).mode,
            final(self).last_selection == old(self).last_selection,
            final(self).clipboard == old(self).clipboard,
            final(self).undo_tree == old(self).undo_tree,
            final(self).completion_words == old(self).completion_words,
    {
        &mut self.screen
    }

    /// Cursor position of the current buffer.
    pub fn raw_position(&self) -> (r: usize)
        requires
            self.wf(),
        ensures
            r == self.pos(),
            r <= self.text().len(),
    {
        self.buffers[self.current_buffer_index].raw_position()
    }

    /// Sending the cursor to where it already stands leaves it there.
    pub proof fn lemma_landing_at_cursor(&self)
        requires
            self.wf(),
        ensures
            0 <= self.pos() <= self.text().len(),
            line_of(self.text(), self.pos()) == self.cur().line(),
            landing_col(self.text(), self.pos(), self.inserting()) == self.cur().col(),
            landing(self.text(), self.pos(), self.inserting()) == self.pos(),
    {
        lemma_line_shape(self.text(), self.cur().line());
    }

    /// Replaces the text of the current buffer, leaving its cursor fields as they are.
    pub(crate) fn set_text(&mut self, text: Vec<char>)
        requires
            old(self).frame_ok(),
        ensures
            final(self).frame_ok(),
            old(self).keeps_frame(final(self)),
            final(self).text() == text@,
            final(self).cur().screen_cursor_position == old(self).cur().screen_cursor_position,
            final(self).cur().offset == old(self).cur().offset,
            final(self).last_selection == old(self).last_selection,
            final(self).clipboard == old(self).clipboard,
            final(self).undo_tree == old(self).undo_tree,
            final(self).completion_words == old(self).completion_words,
    {
        let i = self.current_buffer_index;
        self.buffers[i].content = crate::buffer::Content(text);
    }

    /// Puts the cursor on column `col` of line `line`, scrolling no further than needed.
    pub(crate) fn place_cursor(&mut self, line: usize, col: usize)
        requires
            old(self).frame_ok(),
            line < line_count(old(self).text()),
            col <= last_column(old(self).text(), line as nat, old(self).inserting()),
        ensures
            final(self).wf(),
            old(self).same_but_view(final(self)),
            final(self).cur().line() == line,
            final(self).cur().col() == col,
            final(self).cur().offset.y == scroll_to(
                old(self).cur().offset.y as nat,
                line as nat,
                old(self).screen.heigth as nat,
            ),
            final(self).cur().offset.x == scroll_to(
                old(self).cur().offset.x as nat,
                col as nat,
                old(self).screen.width as nat,
            ),
    {
        let w = self.screen.width;
        let h = self.screen.heigth;
        let i = self.current_buffer_index;
        proof {
            lemma_line_shape(self.text(), line as nat);
        }
        self.buffers[i].place(line, col, w, h);
    }

    /// Sends the cursor to offset `target` (at most the end of the text),
    /// keeping it on a column that the mode allows. Every motion ends here.
    pub fn move_to_raw(&mut self, target: usize)
        requires
            old(self).frame_ok(),
        ensures
            final(self).wf(),
            old(self).same_but_view(final(self)),
            final(self).cur().offset.y == scroll_to(
                old(self).cur().offset.y as nat,
                final(self).cur().line(),
                old(self).screen.heigth as nat,
            ),
            final(self).cur().offset.x == scroll_to(
                old(self).cur().offset.x as nat,
                final(self).cur().col(),
                old(self).screen.width as nat,
            ),
            final(self).cur().line() == line_of(
                old(self).text(),
                clamp_offset(old(self).text(), target as int),
            ),
            final(self).cur().col() == landing_col(
                old(self).text(),
                clamp_offset(old(self).text(), target as int),
                old(self).inserting(),
            ),
            final(self).pos() == landing(old(self).text(), target as int, old(self).inserting()),
    {
        let inserting = self.mode == Mode::Insert;
        let s = &self.buffers[self.current_buffer_index].content.0;
        let t = if target <= s.len() {
            target
        } else {
            s.len()
        };
        let (line, start) = locate(s, t);
        proof {
            lemma_line_of_bounds(s@, t as int);
        }
        let upper = last_column_of(s, line, inserting);
        let c = t - start;
        let col = if c <= upper {
            c
        } else {
            upper
        };
        self.place_cursor(line, col);
    }

    /// Moves the cursor `delta` lines down (up when negative), stopping at the
    /// first and last lines, then pulls its column back onto the new line.
    pub fn move_line(&mut self, delta: i64)
        requires
            old(self).wf(),
        ensures
            final(self).wf(),
            old(self).same_but_view(final(self)),
            final(self).cur().offset.y == scroll_to(
                old(self).cur().offset.y as nat,
                final(self).cur().line(),
                old(self).screen.heigth as nat,
            ),
            final(self).cur().offset.x == scroll_to(
                old(self).cur().offset.x as nat,
                final(self).cur().col(),
                old(self).screen.width as nat,
            ),
            final(self).cur().line() == clamp(
                old(self).cur().line() + delta,
                0,
                count_nl(old(self).text()) as int,
            ),
            final(self).cur().col() == if old(self).cur().col() <= last_column(
                old(self).text(),
                final(self).cur().line(),
                old(self).inserting(),
            ) {
                old(self).cur().col() as int
            } else {
                last_column(old(self).text(), final(self).cur().line(), old(self).inserting())
            },
    {
        let inserting = self.mode == Mode::Insert;
        let b = &self.buffers[self.current_buffer_index];
        let s = &b.content.0;
        let n = s.len();
        proof {
            lemma_count_nl_le_len(s@);
            lemma_line_shape(s@, b.line());
        }
        let last = count_newlines(s);
        let y = b.y();
        let x = b.x();
        let wanted: i128 = y as i128 + delta as i128;
        let line: usize = if wanted < 0 {
            0
        } else if wanted > last as i128 {
            last
        } else {
            wanted as usize
        };
        let upper = last_column_of(s, line, inserting);
        let col = if x <= upper {
            x
        } else {
            upper
        };
        self.place_cursor(line, col);
    }

    /// Moves the cursor `delta` columns right (left when negative) on its line,
    /// between column 0 and the last column the mode allows.
    pub fn move_cursor(&mut self, delta: i64)
        requires
            old(self).wf(),
        ensures
            final(self).wf(),
            old(self).same_but_view(final(self)),
            final(self).cur().offset.y == scroll_to(
                old(self).cur().offset.y as nat,
                final(self).cur().line(),
                old(self).screen.heigth as nat,
            ),
            final(self).cur().offset.x == scroll_to(
                old(self).cur().offset.x as nat,
                final(self).cur().col(),
                old(self).screen.width as nat,
            ),
            final(self).cur().line() == old(self).cur().line(),
            final(self).cur().col() == clamp(
                old(self).cur().col() + delta,
                0,
                last_column(old(self).text(), old(self).cur().line(), old(self).inserting()),
            ),
    {
        let inserting = self.mode == Mode::Insert;
        let b = &self.buffers[self.current_buffer_index];
        let s = &b.content.0;
        let n = s.len();
        proof {
            lemma_count_nl_le_len(s@);
            lemma_line_shape(s@, b.line());
        }
        let y = b.y();
        let x = b.x();
        let upper = last_column_of(s, y, inserting);
        let wanted: i128 = x as i128 + delta as i128;
        let col: usize = if wanted < 0 {
            0
        } else if wanted > upper as i128 {
            upper
        } else {
            wanted as usize
        };
        self.place_cursor(y, col);
    }
}

} // verus!
