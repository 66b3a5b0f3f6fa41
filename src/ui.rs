//! The text area on the terminal, and the cells of the current buffer that it shows.
use vstd::prelude::*;
use crate::buffer::{count_newlines, line_end_of, line_start_of};
use crate::editor::Editor;
use crate::modes::Mode;
use crate::text::{lemma_line_shape, line_count, line_end, line_len, line_start};

verus! {

/// The visible text area: where it starts on the terminal and how many cells it spans.
#[derive(Debug, Clone, Copy)]
pub struct Screen {
    pub text_start_x: u16,
    pub text_start_y: u16,
    pub width: u16,
    pub heigth: u16,
}

impl Screen {
    /// A text area of `width` by `heigth` cells at the top-left corner.
    pub fn with_size(width: u16, heigth: u16) -> (r: Screen)
        ensures
            r.text_start_x == 0,
            r.text_start_y == 0,
            r.width == width,
            r.heigth == heigth,
    {
        Screen { text_start_x: 0, text_start_y: 0, width, heigth }
    }
}

/// One visible character, and whether it lies in the visual selection.
#[derive(Debug, Clone, Copy, PartialEq, Eq, Structural)]
pub struct Cell {
    pub symbol: char,
    pub selected: bool,
}

/// The visible cells, row by row.
#[derive(Debug)]
pub struct ScreenContent(pub Vec<Vec<Cell>>);

impl ScreenContent {
    pub fn inner(&self) -> (r: &Vec<Vec<Cell>>)
        ensures
            *r == self.0,
    {
        &self.0
    }
}

/// Number of rows the viewport shows: the lines from the scroll offset on, at most `heigth`.
pub open spec fn visible_rows(e: Editor) -> int {
    let rest = line_count(e.text()) - e.cur().offset.y;
    if rest < 0 {
        0
    } else if rest < e.screen.heigth {
        rest
    } else {
        e.screen.heigth as int
    }
}

/// Number of cells on row `r`: the characters of its line from the horizontal
/// scroll offset on, at most `width`.
pub open spec fn visible_cols(e: Editor, r: int) -> int {
    let rest = line_len(e.text(), (e.cur().offset.y + r) as nat) - e.cur().offset.x;
    if rest < 0 {
        0
    } else if rest < e.screen.width {
        rest
    } else {
        e.screen.width as int
    }
}

/// Cell at row `r`, column `c` of the viewport.
pub open spec fn cell_at(e: Editor, r: int, c: int) -> Cell {
    let k = line_start(e.text(), (e.cur().offset.y + r) as nat) + e.cur().offset.x + c;
    Cell {
        symbol: e.text()[k],
        selected: e.mode == Mode::Visual && e.last_selection.spec_contains(k),
    }
}

impl Editor {
    /// The characters of the current buffer that the viewport shows, with
    /// the selection marked in visual mode.
    pub fn screen_contents(&self) -> (r: ScreenContent)
        requires
            self.current_buffer_index < self.buffers@.len(),
        ensures
            r.0@.len() == visible_rows(*self),
            forall|i: int| 0 <= i < r.0@.len() ==> r.0@[i]@.len() == visible_cols(*self, i),
            forall|i: int, c: int|
                0 <= i < r.0@.len() && 0 <= c < r.0@[i]@.len() ==> r.0@[i]@[c] == cell_at(
                    *self,
                    i,
                    c,
                ),
    {
        let b = &self.buffers[self.current_buffer_index];
        let s = &b.content.0;
        let lines = count_newlines(s);
        let oy = b.offset.y;
        let ox = b.offset.x;
        let w = self.screen.width as usize;
        let h = self.screen.heigth as usize;
        let visual = self.mode == Mode::Visual;
        let mut rows: Vec<Vec<Cell>> = Vec::new();
        if oy > lines {
            return ScreenContent(rows);
        }
        let mut i: usize = 0;
        while i < h && i <= lines - oy
            invariant
                oy <= lines,
                lines == crate::text::count_nl(s@),
                s@ == self.text(),
                oy == self.cur().offset.y,
                ox == self.cur().offset.x,
                w == self.screen.width,
                h == self.screen.heigth,
                visual == (self.mode == Mode::Visual),
                i <= h,
                i <= lines - oy + 1,
                rows@.len() == i,
                forall|k: int| 0 <= k < i ==> rows@[k]@.len() == visible_cols(*self, k),
                forall|k: int, c: int|
                    0 <= k < i && 0 <= c < rows@[k]@.len() ==> rows@[k]@[c] == cell_at(
                        *self,
                        k,
                        c,
                    ),
            decreases h - i,
        {
            let y = oy + i;
            let a = line_start_of(s, y);
            let e = line_end_of(s, y);
            proof {
                lemma_line_shape(s@, y as nat);
            }
            let mut row: Vec<Cell> = Vec::new();
            if ox < e - a {
                let n = if e - a - ox < w {
                    e - a - ox
                } else {
                    w
                };
                let mut c: usize = 0;
                while c < n
                    invariant
                        a == line_start(s@, y as nat),
                        e == line_end(s@, y as nat),
                        a <= e <= s@.len(),
                        s@ == self.text(),
                        y == oy + i,
                        oy == self.cur().offset.y,
                        ox == self.cur().offset.x,
                        visual == (self.mode == Mode::Visual),
                        ox < e - a,
                        n <= e - a - ox,
                        c <= n,
                        row@.len() == c,
                        forall|j: int| 0 <= j < c ==> row@[j] == cell_at(*self, i as int, j),
                    decreases n - c,
                {
                    let k = a + ox + c;
                    let selected = visual && self.last_selection.contains(k);
                    let cell = Cell { symbol: s[k], selected };
                    assert(cell == cell_at(*self, i as int, c as int));
                    row.push(cell);
                    assert(row@.len() == c + 1);
                    c = c + 1;
                }
            }
            rows.push(row);
            i = i + 1;
        }
        ScreenContent(rows)
    }
}

} // verus!
