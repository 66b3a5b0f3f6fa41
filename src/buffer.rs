//! A buffer: its text, the visible cursor and the scroll offset of the viewport.
use vstd::prelude::*;
use crate::error::EditorError;
use crate::words::{nth_word, nth_word_end, word_steps_index, WordStep};
use crate::text::{
    count_nl, lemma_count_nl_full, lemma_count_nl_mono, lemma_count_nl_step, lemma_line_shape,
    lemma_line_start_char, line_count, line_end, line_len, line_of, line_start, offset_of,
};

verus! {

/// Position of the cursor inside the visible window.
#[derive(Debug, Default, Clone, Copy)]
pub struct CursorPosition {
    pub x: u16,
    pub y: u16,
}

/// Top-left line and column of the visible window.
#[derive(Debug, Default, Clone, Copy)]
pub struct Offset {
    pub x: usize,
    pub y: usize,
}

/// The text of a buffer, one element per character.
#[derive(Debug, Default)]
pub struct Content(pub Vec<char>);

impl View for Content {
    type V = Seq<char>;

    open spec fn view(&self) -> Seq<char> {
        self.0@
    }
}

impl Content {
    /// Builds a content holding the characters of `s`.
    pub fn from_chars(s: Vec<char>) -> (r: Content)
        ensures
            r@ == s@,
    {
        Content(s)
    }

    pub fn inner(&self) -> (r: &Vec<char>)
        ensures
            r@ == self@,
    {
        &self.0
    }

    pub fn inner_mut(&mut self) -> (r: &mut Vec<char>)
        ensures
            *r == old(self).0,
            final(self).0 == *final(r),
    {
        &mut self.0
    }
}

/// One open text with its cursor and viewport.
#[derive(Debug, Default)]
pub struct Buffer {
    pub content: Content,
    pub screen_cursor_position: CursorPosition,
    pub offset: Offset,
    pub file_name: Option<String>,
}

/// Offset a viewport of `size` cells must scroll to so that `target` is visible,
/// moving no further than needed from `offset`.
pub open spec fn scroll_to(offset: nat, target: nat, size: nat) -> nat {
    if target < offset {
        target
    } else if target >= offset + size {
        (target - size + 1) as nat
    } else {
        offset
    }
}

/// Number of newlines of `s`.
pub fn count_newlines(s: &Vec<char>) -> (r: usize)
    ensures
        r == count_nl(s@),
{
    let mut i: usize = 0;
    let mut c: usize = 0;
    while i < s.len()
        invariant
            i <= s.len(),
            c == count_nl(s@.take(i as int)),
            c <= i,
        decreases s.len() - i,
    {
        proof {
            lemma_count_nl_step(s@, i as int);
        }
        if s[i] == '\n' {
            c = c + 1;
        }
        i = i + 1;
    }
    proof {
        lemma_count_nl_full(s@);
    }
    c
}

/// Line `y` starts at `k` whenever `k` follows the `y`-th newline.
pub proof fn lemma_line_start_unique(s: Seq<char>, y: nat, k: int)
    requires
        0 < k <= s.len(),
        y > 0,
        count_nl(s.take(k)) == y,
        s[k - 1] == '\n',
    ensures
        line_start(s, y) == k,
{
    lemma_count_nl_full(s);
    lemma_count_nl_mono(s, k, s.len() as int);
    lemma_line_start_char(s, y);
    let a = line_start(s, y);
    if a < k {
        lemma_count_nl_mono(s, a, k - 1);
        lemma_count_nl_step(s, k - 1);
    } else if a > k {
        lemma_count_nl_mono(s, k, a - 1);
        lemma_count_nl_step(s, a - 1);
    }
}

/// Line and start of that line for offset `t`.
pub fn locate(s: &Vec<char>, t: usize) -> (r: (usize, usize))
    requires
        t <= s@.len(),
    ensures
        r.0 == line_of(s@, t as int),
        r.1 == line_start(s@, r.0 as nat),
        r.1 <= t,
{
    let mut i: usize = 0;
    let mut c: usize = 0;
    let mut st: usize = 0;
    while i < t
        invariant
            t <= s@.len(),
            i <= t,
            c == count_nl(s@.take(i as int)),
            c <= i,
            st <= i,
            st == line_start(s@, c as nat),
        decreases t - i,
    {
        proof {
            lemma_count_nl_step(s@, i as int);
        }
        if s[i] == '\n' {
            c = c + 1;
            st = i + 1;
            proof {
                lemma_line_start_unique(s@, c as nat, i + 1);
            }
        }
        i = i + 1;
    }
    (c, st)
}

/// Offset at which line `y` starts.
pub fn line_start_of(s: &Vec<char>, y: usize) -> (r: usize)
    requires
        y <= count_nl(s@),
    ensures
        r == line_start(s@, y as nat),
        r <= s@.len(),
{
    proof {
        lemma_line_start_char(s@, y as nat);
    }
    if y == 0 {
        return 0;
    }
    let mut i: usize = 0;
    let mut c: usize = 0;
    while i < s.len()
        invariant
            0 < y <= count_nl(s@),
            i <= s@.len(),
            c == count_nl(s@.take(i as int)),
            c < y,
            c <= i,
            i <= line_start(s@, y as nat),
            line_start(s@, y as nat) <= s@.len(),
            line_of(s@, line_start(s@, y as nat)) == y,
        decreases s.len() - i,
    {
        proof {
            lemma_count_nl_step(s@, i as int);
        }
        if s[i] == '\n' {
            c = c + 1;
            if c == y {
                proof {
                    lemma_line_start_unique(s@, y as nat, i + 1);
                }
                return i + 1;
            }
        }
        i = i + 1;
        proof {
            if i > line_start(s@, y as nat) {
                lemma_count_nl_mono(s@, line_start(s@, y as nat), i as int);
            }
        }
    }
    proof {
        lemma_count_nl_full(s@);
    }
    i
}

/// Offset just past the last character of line `y`.
pub fn line_end_of(s: &Vec<char>, y: usize) -> (r: usize)
    requires
        y <= count_nl(s@),
    ensures
        r == line_end(s@, y as nat),
        line_start(s@, y as nat) <= r <= s@.len(),
{
    proof {
        lemma_line_shape(s@, y as nat);
    }
    let mut i = line_start_of(s, y);
    while i < s.len() && s[i] != '\n'
        invariant
            y <= count_nl(s@),
            line_start(s@, y as nat) <= i <= line_end(s@, y as nat),
            line_end(s@, y as nat) <= s@.len(),
            forall|k: int| line_start(s@, y as nat) <= k < line_end(s@, y as nat) ==> s@[k] != '\n',
            (y as nat) < count_nl(s@) ==> s@[line_end(s@, y as nat)] == '\n',
        decreases s.len() - i,
    {
        i = i + 1;
    }
    i
}

impl Buffer {
    /// Logical line of the cursor.
    pub open spec fn line(&self) -> nat {
        (self.offset.y + self.screen_cursor_position.y) as nat
    }

    /// Logical column of the cursor.
    pub open spec fn col(&self) -> nat {
        (self.offset.x + self.screen_cursor_position.x) as nat
    }

    /// Absolute offset of the cursor in the text.
    pub open spec fn position(&self) -> int {
        offset_of(self.content@, self.line(), self.col())
    }

    /// The cursor stands on an existing line, at most one past its last
    /// character, and inside a viewport of `width` by `height` cells.
    pub open spec fn wf(&self, width: nat, height: nat) -> bool {
        &&& self.screen_cursor_position.x < width
        &&& self.screen_cursor_position.y < height
        &&& self.line() < line_count(self.content@)
        &&& self.col() <= line_len(self.content@, self.line())
    }

    pub fn y(&self) -> (r: usize)
        requires
            self.offset.y + self.screen_cursor_position.y <= usize::MAX,
        ensures
            r == self.line(),
    {
        self.screen_cursor_position.y as usize + self.offset.y
    }

    pub fn x(&self) -> (r: usize)
        requires
            self.offset.x + self.screen_cursor_position.x <= usize::MAX,
        ensures
            r == self.col(),
    {
        self.screen_cursor_position.x as usize + self.offset.x
    }

    /// Offset of column `x` of line `y`; refused for a line beyond the text
    /// or a column beyond the end of its line.
    pub fn raw_position_coordinates(&self, x: usize, y: usize) -> (r: Result<usize, EditorError>)
        ensures
            (y < line_count(self.content@) && x <= line_len(self.content@, y as nat)) <==> r is Ok,
            r is Ok ==> r->Ok_0 == offset_of(self.content@, y as nat, x as nat),
            y >= line_count(self.content@) ==> r == Err::<usize, EditorError>(
                EditorError::OutOfBounds(y),
            ),
            y < line_count(self.content@) && x > line_len(self.content@, y as nat) ==> r == Err::<
                usize,
                EditorError,
            >(EditorError::OutOfBounds(x)),
    {
        let s = &self.content.0;
        if y > count_newlines(s) {
            return Err(EditorError::OutOfBounds(y));
        }
        let a = line_start_of(s, y);
        let e = line_end_of(s, y);
        if x > e - a {
            return Err(EditorError::OutOfBounds(x));
        }
        Ok(a + x)
    }

    /// Absolute offset of the cursor.
    pub fn raw_position(&self) -> (r: usize)
        requires
            self.line() < line_count(self.content@),
            self.col() <= line_len(self.content@, self.line()),
        ensures
            r == self.position(),
            r <= self.content@.len(),
    {
        let n = self.content.0.len();
        proof {
            assert(n == self.content@.len());
            lemma_line_shape(self.content@, self.line());
            lemma_count_nl_full(self.content@);
            lemma_count_nl_mono(self.content@, 0, self.content@.len() as int);
            assert(self.content@.take(0) =~= Seq::<char>::empty());
        }
        let a = line_start_of(&self.content.0, self.y());
        a + self.x()
    }

    /// Characters of the cursor's line, its newline excluded.
    pub fn current_line(&self) -> (r: Result<Vec<char>, EditorError>)
        requires
            self.offset.y + self.screen_cursor_position.y <= usize::MAX,
        ensures
            self.line() < line_count(self.content@) <==> r is Ok,
            r is Ok ==> r->Ok_0@ == self.content@.subrange(
                line_start(self.content@, self.line()),
                line_end(self.content@, self.line()),
            ),
            r is Err ==> r->Err_0 == EditorError::OutOfBounds(self.line() as usize),
    {
        let y = self.y();
        let s = &self.content.0;
        if y > count_newlines(s) {
            return Err(EditorError::OutOfBounds(y));
        }
        let a = line_start_of(s, y);
        let b = line_end_of(s, y);
        let mut v: Vec<char> = Vec::new();
        let mut i = a;
        while i < b
            invariant
                a <= i <= b <= s@.len(),
                v@ == s@.subrange(a as int, i as int),
            decreases b - i,
        {
            v.push(s[i]);
            i = i + 1;
            assert(v@ =~= s@.subrange(a as int, i as int));
        }
        Ok(v)
    }

    /// Number of characters of the cursor's line.
    pub fn current_line_length(&self) -> (r: Result<usize, EditorError>)
        requires
            self.offset.y + self.screen_cursor_position.y <= usize::MAX,
        ensures
            self.line() < line_count(self.content@) <==> r is Ok,
            r is Ok ==> r->Ok_0 == line_len(self.content@, self.line()),
            r is Err ==> r->Err_0 == EditorError::OutOfBounds(self.line() as usize),
    {
        let y = self.y();
        let s = &self.content.0;
        if y > count_newlines(s) {
            return Err(EditorError::OutOfBounds(y));
        }
        let a = line_start_of(s, y);
        let b = line_end_of(s, y);
        Ok(b - a)
    }

    /// Number of lines of the text; refused when that number does not fit in `usize`.
    pub fn lines_count(&self) -> (r: Result<usize, EditorError>)
        ensures
            line_count(self.content@) <= usize::MAX <==> r is Ok,
            r is Ok ==> r->Ok_0 == line_count(self.content@),
            r is Err ==> r->Err_0 == EditorError::OutOfBounds(usize::MAX),
    {
        let n = count_newlines(&self.content.0);
        if n == usize::MAX {
            return Err(EditorError::OutOfBounds(usize::MAX));
        }
        Ok(n + 1)
    }

    /// Puts the cursor on column `col` of line `line`, scrolling a viewport of
    /// `width` by `height` cells no further than needed to show it.
    pub fn place(&mut self, line: usize, col: usize, width: u16, height: u16)
        requires
            width > 0,
            height > 0,
            line < line_count(old(self).content@),
            col <= line_len(old(self).content@, line as nat),
        ensures
            final(self).content == old(self).content,
            final(self).file_name == old(self).file_name,
            final(self).line() == line,
            final(self).col() == col,
            final(self).offset.y == scroll_to(old(self).offset.y as nat, line as nat, height as nat),
            final(self).offset.x == scroll_to(old(self).offset.x as nat, col as nat, width as nat),
            final(self).wf(width as nat, height as nat),
    {
        let oy = self.offset.y;
        let ny = if line < oy {
            line
        } else if line - oy >= height as usize {
            line - height as usize + 1
        } else {
            oy
        };
        let ox = self.offset.x;
        let nx = if col < ox {
            col
        } else if col - ox >= width as usize {
            col - width as usize + 1
        } else {
            ox
        };
        self.offset = Offset { x: nx, y: ny };
        self.screen_cursor_position = CursorPosition { x: (col - nx) as u16, y: (line - ny) as u16 };
    }
}

/// Index of the `n`-th (from 0) occurrence of `c` at or after `j`.
pub open spec fn occurrence_from(s: Seq<char>, c: char, j: int, n: nat) -> Option<int>
    decreases s.len() - j,
{
    if j >= s.len() {
        None
    } else if s[j] == c {
        if n == 0 {
            Some(j)
        } else {
            occurrence_from(s, c, j + 1, (n - 1) as nat)
        }
    } else {
        occurrence_from(s, c, j + 1, n)
    }
}

/// Index of the `n`-th (from 0) occurrence of `c` before `j`, counting backward.
pub open spec fn occurrence_below(s: Seq<char>, c: char, j: int, n: nat) -> Option<int>
    decreases j,
{
    if j <= 0 {
        None
    } else if s[j - 1] == c {
        if n == 0 {
            Some(j - 1)
        } else {
            occurrence_below(s, c, j - 1, (n - 1) as nat)
        }
    } else {
        occurrence_below(s, c, j - 1, n)
    }
}

/// The `delta`-th occurrence of `c` strictly after `p` (counting from 0), or for
/// negative `delta` the `-delta`-th strictly before `p`.
pub open spec fn char_target(s: Seq<char>, p: int, c: char, delta: int) -> Option<int> {
    if delta >= 0 {
        occurrence_from(s, c, if p + 1 <= s.len() { p + 1 } else { s.len() as int }, delta as nat)
    } else {
        occurrence_below(s, c, p, (-delta - 1) as nat)
    }
}

/// Count of steps that a signed `delta` asks for.
fn steps_of(delta: i64) -> (r: u64)
    ensures
        r as int == if delta < 0 { -delta } else { delta as int },
{
    if delta < 0 {
        (-(delta + 1)) as u64 + 1
    } else {
        delta as u64
    }
}

impl Buffer {
    /// Offset `delta` words away from the cursor: forward for positive `delta`,
    /// backward for negative, staying put at the ends of the text.
    pub fn nth_word_index(&self, delta: i64) -> (r: usize)
        requires
            self.line() < line_count(self.content@),
            self.col() <= line_len(self.content@, self.line()),
        ensures
            r == nth_word(self.content@, self.position(), delta as int),
    {
        let p = self.raw_position();
        let n = steps_of(delta);
        if delta < 0 {
            word_steps_index(&self.content.0, p, WordStep::Prev, n)
        } else {
            word_steps_index(&self.content.0, p, WordStep::Next, n)
        }
    }

    /// Offset `delta` word ends away from the cursor.
    pub fn nth_word_end_index(&self, delta: i64) -> (r: usize)
        requires
            self.line() < line_count(self.content@),
            self.col() <= line_len(self.content@, self.line()),
        ensures
            r == nth_word_end(self.content@, self.position(), delta as int),
    {
        let p = self.raw_position();
        let n = steps_of(delta);
        if delta < 0 {
            word_steps_index(&self.content.0, p, WordStep::PrevEnd, n)
        } else {
            word_steps_index(&self.content.0, p, WordStep::NextEnd, n)
        }
    }

    /// Offset of the `delta`-th occurrence of `char` after the cursor (from 0),
    /// or for negative `delta` of the `-delta`-th before it; `None` if there is none.
    pub fn next_char_index(&self, char: char, delta: i64) -> (r: Option<usize>)
        requires
            self.line() < line_count(self.content@),
            self.col() <= line_len(self.content@, self.line()),
        ensures
            r is Some ==> char_target(self.content@, self.position(), char, delta as int) == Some(
                r->Some_0 as int,
            ),
            r is None ==> char_target(self.content@, self.position(), char, delta as int) is None,
    {
        let s = &self.content.0;
        let p = self.raw_position();
        if delta >= 0 {
            let start = if p < s.len() {
                p + 1
            } else {
                s.len()
            };
            occurrence_from_index(s, char, start, delta as u64)
        } else {
            occurrence_below_index(s, char, p, (-(delta + 1)) as u64)
        }
    }
}

/// Index of the `n`-th (from 0) occurrence of `c` at or after `from`.
pub fn occurrence_from_index(s: &Vec<char>, c: char, from: usize, n: u64) -> (r: Option<usize>)
    requires
        from <= s@.len(),
    ensures
        r is Some ==> occurrence_from(s@, c, from as int, n as nat) == Some(r->Some_0 as int),
        r is Some ==> r->Some_0 < s@.len(),
        r is None ==> occurrence_from(s@, c, from as int, n as nat) is None,
{
    let mut k: u64 = n;
    let mut j = from;
    while j < s.len()
        invariant
            from <= j <= s@.len(),
            occurrence_from(s@, c, from as int, n as nat) == occurrence_from(
                s@,
                c,
                j as int,
                k as nat,
            ),
        decreases s@.len() - j,
    {
        if s[j] == c {
            if k == 0 {
                return Some(j);
            }
            k = k - 1;
        }
        j = j + 1;
    }
    None
}

/// Index of the `n`-th (from 0) occurrence of `c` before `below`, counting backward.
pub fn occurrence_below_index(s: &Vec<char>, c: char, below: usize, n: u64) -> (r: Option<usize>)
    requires
        below <= s@.len(),
    ensures
        r is Some ==> occurrence_below(s@, c, below as int, n as nat) == Some(r->Some_0 as int),
        r is Some ==> r->Some_0 < s@.len(),
        r is None ==> occurrence_below(s@, c, below as int, n as nat) is None,
{
    let mut k: u64 = n;
    let mut j = below;
    while j > 0
        invariant
            j <= below <= s@.len(),
            occurrence_below(s@, c, below as int, n as nat) == occurrence_below(
                s@,
                c,
                j as int,
                k as nat,
            ),
        decreases j,
    {
        if s[j - 1] == c {
            if k == 0 {
                return Some(j - 1);
            }
            k = k - 1;
        }
        j = j - 1;
    }
    None
}

/// `s` as written to disk: each run of four tabs, taken from the left, becomes one tab.
pub open spec fn collapse_tabs(s: Seq<char>) -> Seq<char>
    decreases s.len(),
{
    if s.len() == 0 {
        s
    } else if s.len() >= 4 && s[0] == '\t' && s[1] == '\t' && s[2] == '\t' && s[3] == '\t' {
        seq!['\t'] + collapse_tabs(s.skip(4))
    } else {
        seq![s[0]] + collapse_tabs(s.skip(1))
    }
}

impl Buffer {
    /// A buffer holding `content`, with the cursor and the viewport at the top-left corner.
    pub fn from_content(content: Vec<char>, file_name: Option<String>) -> (r: Buffer)
        ensures
            r.content@ == content@,
            r.file_name == file_name,
            r.screen_cursor_position.x == 0 && r.screen_cursor_position.y == 0,
            r.offset.x == 0 && r.offset.y == 0,
            forall|w: nat, h: nat| w > 0 && h > 0 ==> #[trigger] r.wf(w, h),
    {
        proof {
            lemma_line_shape(content@, 0);
        }
        Buffer {
            content: Content(content),
            screen_cursor_position: CursorPosition { x: 0, y: 0 },
            offset: Offset { x: 0, y: 0 },
            file_name,
        }
    }

    /// A buffer holding the characters of `text`; see `from_content`.
    pub fn from_text(text: &str, file_name: Option<String>) -> (r: Buffer)
        ensures
            r.content@ == text@,
            r.file_name == file_name,
            r.screen_cursor_position.x == 0 && r.screen_cursor_position.y == 0,
            r.offset.x == 0 && r.offset.y == 0,
            forall|w: nat, h: nat| w > 0 && h > 0 ==> #[trigger] r.wf(w, h),
    {
        Buffer::from_content(crate::actions::chars_of(text), file_name)
    }

    /// The text as it is written to disk: each run of four tabs becomes one tab.
    pub fn saved_content(&self) -> (r: Vec<char>)
        ensures
            r@ == collapse_tabs(self.content@),
    {
        let s = &self.content.0;
        let mut r: Vec<char> = Vec::new();
        let mut i: usize = 0;
        assert(s@.skip(0) =~= s@);
        assert(r@ + collapse_tabs(s@) =~= collapse_tabs(s@));
        while i < s.len()
            invariant
                i <= s@.len(),
                r@ + collapse_tabs(s@.skip(i as int)) == collapse_tabs(s@),
            decreases s@.len() - i,
        {
            let ghost rest = s@.skip(i as int);
            if s.len() - i >= 4 &&s[i] == '\t' && s[i + 1] == '\t' && s[i + 2] == '\t' && s[i + 3]
                == '\t' {
                assert(rest.skip(4) =~= s@.skip(i + 4));
                assert(collapse_tabs(rest) == seq!['\t'] + collapse_tabs(s@.skip(i + 4)));
                r.push('\t');
                assert(r@ + collapse_tabs(s@.skip(i + 4)) =~= collapse_tabs(s@));
                i = i + 4;
            } else {
                assert(rest.skip(1) =~= s@.skip(i + 1));
                assert(collapse_tabs(rest) == seq![s@[i as int]] + collapse_tabs(s@.skip(i + 1)));
                r.push(s[i]);
                assert(r@ + collapse_tabs(s@.skip(i + 1)) =~= collapse_tabs(s@));
                i = i + 1;
            }
        }
        assert(s@.skip(s@.len() as int) =~= Seq::<char>::empty());
        assert(r@ + Seq::<char>::empty() =~= r@);
        r
    }

    /// File name and text to write when saving; refused when the buffer has no file.
    pub fn save_payload(&self) -> (r: Result<(String, Vec<char>), EditorError>)
        ensures
            self.file_name is None <==> r is Err,
            r is Err ==> r->Err_0 == EditorError::NoFileAssociated,
            r is Ok ==> r->Ok_0.0 == self.file_name->Some_0 && r->Ok_0.1@ == collapse_tabs(
                self.content@,
            ),
    {
        match &self.file_name {
            None => Err(EditorError::NoFileAssociated),
            Some(name) => Ok((name.clone(), self.saved_content())),
        }
    }
}

} // verus!
