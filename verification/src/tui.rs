//! The administration console's text logic: the prompt editor (logical
//! lines, a cursor, soft wrapping by display width) and the small value
//! formatters of its tables.
pub mod console;
pub mod keys;
pub mod order;
pub mod view;

use crate::api::chat::sse::{join_lines, split_lines};
use crate::config::{Agent, Provider};
use crate::text::{
    decimal_int, i64_decimal, is_trim_empty, is_ws, is_ws_exec, push_all, slice_to_vec, str_chars,
    string_from_chars, trim, trim_chars,
};
use vstd::prelude::*;
use vstd::string::StringSliceAdditionalSpecFns;
use vstd::utf8::encode_utf8;

verus! {

/// The display width `unicode-width` gives a character (`None` for control
/// characters).
pub uninterp spec fn char_cells(c: char) -> Option<usize>;

/// `UnicodeWidthChar::width`: the columns a character occupies, or `None`
/// for a control character.  Which width a character has is left to the name.
#[verifier::external_body]
fn char_width(c: char) -> (r: Option<usize>)
    ensures
        r == char_cells(c),
{
    unicode_width::UnicodeWidthChar::width(c)
}

/// The display width `unicode-width` gives a text.
pub uninterp spec fn text_cells(s: Seq<char>) -> usize;

/// `UnicodeWidthStr::width`: the columns a text occupies.  Its value is left
/// to the name.
#[verifier::external_body]
fn str_width(s: &str) -> (r: usize)
    ensures
        r == text_cells(s@),
{
    unicode_width::UnicodeWidthStr::width(s)
}

/// The columns a character takes when wrapping: its width, but at least one.
pub open spec fn cell(c: char) -> nat {
    match char_cells(c) {
        Some(w) => if w <= 1 {
            1
        } else {
            w as nat
        },
        None => 1,
    }
}

fn cell_exec(c: char) -> (r: usize)
    ensures
        r == cell(c),
        r >= 1,
{
    match char_width(c) {
        Some(w) => if w <= 1 {
            1
        } else {
            w
        },
        None => 1,
    }
}

/// Where a greedy fill from `i`, having used `w` of `max_w` columns, stops.
pub open spec fn fit_from(chars: Seq<char>, i: int, w: nat, max_w: nat) -> int
    decreases chars.len() - i,
{
    if i < 0 || i >= chars.len() || w + cell(chars[i]) > max_w {
        i
    } else {
        fit_from(chars, i + 1, w + cell(chars[i]), max_w)
    }
}

/// The last whitespace position in `chars[a..b]`.
pub open spec fn last_ws_in(chars: Seq<char>, a: int, b: int) -> Option<int>
    decreases b - a,
{
    if b <= a {
        None
    } else if is_ws(chars[b - 1]) {
        Some(b - 1)
    } else {
        last_ws_in(chars, a, b - 1)
    }
}

/// Where a wrapped segment starting at `start` ends: as many characters as
/// fit in `max_w` columns (at least one), broken at the last whitespace
/// after the start when the line goes on.
pub open spec fn wrap_end(chars: Seq<char>, start: int, max_w: nat) -> int {
    let e = fit_from(chars, start, 0, max_w);
    if e == start {
        if start + 1 < chars.len() {
            start + 1
        } else {
            chars.len() as int
        }
    } else if e < chars.len() && (last_ws_in(chars, start, e) matches Some(sp) && sp > start) {
        last_ws_in(chars, start, e)->0
    } else {
        e
    }
}

/// `s` without trailing spaces and tabs.
pub open spec fn strip_blanks(s: Seq<char>) -> Seq<char>
    decreases s.len(),
{
    if s.len() > 0 && (s.last() == ' ' || s.last() == '\t') {
        strip_blanks(s.drop_last())
    } else {
        s
    }
}

proof fn lemma_fit_from_range(chars: Seq<char>, i: int, w: nat, max_w: nat)
    requires
        0 <= i <= chars.len(),
    ensures
        i <= fit_from(chars, i, w, max_w) <= chars.len(),
    decreases chars.len() - i,
{
    if i < chars.len() && w + cell(chars[i]) <= max_w {
        lemma_fit_from_range(chars, i + 1, w + cell(chars[i]), max_w);
    }
}

proof fn lemma_last_ws_range(chars: Seq<char>, a: int, b: int)
    ensures
        last_ws_in(chars, a, b) matches Some(sp) ==> a <= sp < b,
    decreases b - a,
{
    if b > a && !is_ws(chars[b - 1]) {
        lemma_last_ws_range(chars, a, b - 1);
    }
}

/// The end of the segment that starts at `start`, and its text without
/// trailing blanks.
pub fn wrap_segment(chars: &[char], start: usize, max_w: usize) -> (r: (usize, String))
    requires
        start < chars@.len(),
    ensures
        r.0 == wrap_end(chars@, start as int, max_w as nat),
        start < r.0 <= chars@.len(),
        r.1@ == strip_blanks(chars@.subrange(start as int, r.0 as int)),
{
    let n = chars.len();
    let mut w: usize = 0;
    let mut end: usize = start;
    let mut last_space: Option<usize> = None;
    let mut full = false;
    while end < n && !full
        invariant
            n == chars@.len(),
            start <= end <= n,
            w <= max_w,
            full ==> end < n && w + cell(chars@[end as int]) > max_w,
            fit_from(chars@, start as int, 0, max_w as nat) == fit_from(
                chars@,
                end as int,
                w as nat,
                max_w as nat,
            ),
            match last_space {
                Some(sp) => last_ws_in(chars@, start as int, end as int) == Some(sp as int),
                None => last_ws_in(chars@, start as int, end as int) is None,
            },
        decreases n - end + (if full {
            0int
        } else {
            1int
        }),
    {
        let cw = cell_exec(chars[end]);
        if cw > max_w - w {
            full = true;
        } else {
            if is_ws_exec(chars[end]) {
                last_space = Some(end);
            }
            w = w + cw;
            end = end + 1;
        }
    }
    proof {
        lemma_fit_from_range(chars@, start as int, 0, max_w as nat);
        lemma_last_ws_range(chars@, start as int, end as int);
    }
    if end == start {
        end = if start + 1 < n {
            start + 1
        } else {
            n
        };
    } else if end < n {
        match last_space {
            Some(sp) => {
                if sp > start {
                    end = sp;
                }
            },
            None => {},
        }
    }
    let seg = slice_to_vec(chars, start, end);
    let mut k: usize = seg.len();
    proof {
        assert(seg@.subrange(0, seg@.len() as int) =~= seg@);
    }
    while k > 0 && (seg[k - 1] == ' ' || seg[k - 1] == '\t')
        invariant
            k <= seg@.len(),
            strip_blanks(seg@) == strip_blanks(seg@.subrange(0, k as int)),
        decreases k,
    {
        proof {
            assert(seg@.subrange(0, k as int).drop_last() =~= seg@.subrange(0, k - 1));
        }
        k = k - 1;
    }
    let text = slice_to_vec(seg.as_slice(), 0, k);
    proof {
        let t = seg@.subrange(0, k as int);
        assert(seg@.subrange(0, seg@.len() as int) =~= seg@);
        if k > 0 {
            assert(t.last() == seg@[k - 1]);
        }
        assert(strip_blanks(t) == t);
    }
    (end, string_from_chars(text.as_slice()))
}

/// `s.chars().skip(start).take(end - start)`, the count saturating.
pub open spec fn slice_of(s: Seq<char>, start: nat, end: nat) -> Seq<char> {
    let a = if start > s.len() {
        s.len()
    } else {
        start
    };
    let want = if end > start {
        (end - start) as nat
    } else {
        0
    };
    let b = if a + want > s.len() {
        s.len()
    } else {
        a + want
    };
    s.subrange(a as int, b as int)
}

pub fn slice_chars(s: &[char], start: usize, end: usize) -> (r: Vec<char>)
    ensures
        r@ == slice_of(s@, start as nat, end as nat),
{
    let n = s.len();
    let a = if start > n {
        n
    } else {
        start
    };
    let want = if end > start {
        end - start
    } else {
        0
    };
    let b = if want > n - a {
        n
    } else {
        a + want
    };
    slice_to_vec(s, a, b)
}

/// The column at which a cursor aimed at `want_x` columns into the visual
/// line `[start_col, end_col)` of `chars` lands: past every character that
/// still fits before `want_x`.
pub open spec fn col_fit(chars: Seq<char>, i: int, end: int, x: nat, want_x: nat) -> int
    decreases end - i,
{
    if i < 0 || i >= end || i >= chars.len() || x + cell(chars[i]) > want_x {
        i
    } else {
        col_fit(chars, i + 1, end, x + cell(chars[i]), want_x)
    }
}

pub fn col_at_x(chars: &[char], start_col: usize, end_col: usize, want_x: usize) -> (r: usize)
    ensures
        r == col_fit(chars@, start_col as int, end_col as int, 0, want_x as nat),
{
    let n = chars.len();
    let mut x: usize = 0;
    let mut col: usize = start_col;
    let mut full = false;
    while col < end_col && col < n && !full
        invariant
            n == chars@.len(),
            start_col <= col,
            x <= want_x,
            full ==> col < end_col && col < n && x + cell(chars@[col as int]) > want_x,
            col_fit(chars@, start_col as int, end_col as int, 0, want_x as nat) == col_fit(
                chars@,
                col as int,
                end_col as int,
                x as nat,
                want_x as nat,
            ),
        decreases n - col + (if full {
            0int
        } else {
            1int
        }),
    {
        let cw = cell_exec(chars[col]);
        if cw > want_x - x {
            full = true;
        } else {
            x = x + cw;
            col = col + 1;
        }
    }
    col
}

/// An editor state: its logical lines and the cursor (row, column in characters).
pub open spec fn state_ok(ls: Seq<Seq<char>>, r: int, c: int) -> bool {
    ls.len() >= 1 && 0 <= r < ls.len() && 0 <= c <= ls[r].len()
}

/// Typing `ch` at the cursor.
pub open spec fn after_insert(ls: Seq<Seq<char>>, r: int, c: int, ch: char) -> (
    Seq<Seq<char>>,
    int,
    int,
) {
    (ls.update(r, ls[r].insert(c, ch)), r, c + 1)
}

/// Backspace: deletes the character before the cursor, or joins the line
/// with the one above when the cursor is at its start.
pub open spec fn after_backspace(ls: Seq<Seq<char>>, r: int, c: int) -> (Seq<Seq<char>>, int, int) {
    if c > 0 {
        (ls.update(r, ls[r].remove(c - 1)), r, c - 1)
    } else if r > 0 {
        (ls.update(r - 1, ls[r - 1] + ls[r]).remove(r), r - 1, ls[r - 1].len() as int)
    } else {
        (ls, r, c)
    }
}

/// Enter: splits the line at the cursor; the cursor starts the new line.
pub open spec fn after_newline(ls: Seq<Seq<char>>, r: int, c: int) -> (Seq<Seq<char>>, int, int) {
    (
        ls.update(r, ls[r].subrange(0, c)).insert(r + 1, ls[r].subrange(c, ls[r].len() as int)),
        r + 1,
        0,
    )
}

/// Left: one character back, or to the end of the line above.
pub open spec fn after_left(ls: Seq<Seq<char>>, r: int, c: int) -> (int, int) {
    if c > 0 {
        (r, c - 1)
    } else if r > 0 {
        (r - 1, ls[r - 1].len() as int)
    } else {
        (r, c)
    }
}

/// Right: one character on, or to the start of the line below.
pub open spec fn after_right(ls: Seq<Seq<char>>, r: int, c: int) -> (int, int) {
    if c < ls[r].len() {
        (r, c + 1)
    } else if r + 1 < ls.len() {
        (r + 1, 0)
    } else {
        (r, c)
    }
}

/// A key the editor reacts to.
#[derive(Debug, Clone, Copy, PartialEq, Eq, Structural)]
pub enum EditorKey {
    /// A character typed without Control or Alt.
    Char(char),
    /// A character typed with Control or Alt: ignored.
    ChordChar(char),
    Backspace,
    Enter,
    Left,
    Right,
    Up,
    Down,
    Home,
    End,
    /// Any other key: ignored.
    Other,
}

/// One soft-wrapped piece of a logical line: the row, its character range
/// and its text without trailing blanks.
#[derive(Debug)]
pub struct VisualLine {
    pub row: usize,
    pub start_col: usize,
    pub end_col: usize,
    pub text: String,
}

/// A multi-line text field with a cursor and soft wrapping.
#[derive(Debug)]
pub struct PromptEditor {
    placeholder: String,
    lines: Vec<Vec<char>>,
    cursor_row: usize,
    cursor_col: usize,
    desired_x: Option<usize>,
    scroll: usize,
    last_wrap_w: usize,
}

fn lines_of(text: &str) -> (r: Vec<Vec<char>>)
    ensures
        r@.map_values(|l: Vec<char>| l@) == split_lines(text@),
{
    let v = str_chars(text);
    let mut out: Vec<Vec<char>> = Vec::new();
    let mut cur: Vec<char> = Vec::new();
    let mut i: usize = 0;
    while i < v.len()
        invariant
            i <= v@.len(),
            v@ == text@,
            split_lines(v@.subrange(0, i as int)) == out@.map_values(|l: Vec<char>| l@).push(cur@),
        decreases v@.len() - i,
    {
        let c = v[i];
        proof {
            assert(v@.subrange(0, i + 1).drop_last() =~= v@.subrange(0, i as int));
            assert(v@.subrange(0, i + 1).last() == c);
        }
        if c == '\n' {
            let ghost before = out@.map_values(|l: Vec<char>| l@);
            let done = cur;
            out.push(done);
            cur = Vec::new();
            proof {
                assert(out@.map_values(|l: Vec<char>| l@) =~= before.push(done@));
                assert(split_lines(v@.subrange(0, i + 1)) =~= out@.map_values(|l: Vec<char>| l@).push(
                    cur@,
                ));
            }
        } else {
            let ghost old_cur = cur@;
            cur.push(c);
            proof {
                assert(split_lines(v@.subrange(0, i + 1)) =~= out@.map_values(|l: Vec<char>| l@).push(
                    cur@,
                ));
            }
        }
        i = i + 1;
    }
    let ghost before = out@.map_values(|l: Vec<char>| l@);
    out.push(cur);
    proof {
        assert(v@.subrange(0, v@.len() as int) =~= v@);
        assert(out@.map_values(|l: Vec<char>| l@) =~= split_lines(text@));
    }
    out
}

proof fn lemma_split_nonempty(s: Seq<char>)
    ensures
        split_lines(s).len() >= 1,
    decreases s.len(),
{
    if s.len() > 0 {
        lemma_split_nonempty(s.drop_last());
    }
}

impl PromptEditor {
    pub closed spec fn rows(&self) -> Seq<Seq<char>> {
        self.lines@.map_values(|l: Vec<char>| l@)
    }

    pub closed spec fn row(&self) -> int {
        self.cursor_row as int
    }

    pub closed spec fn col(&self) -> int {
        self.cursor_col as int
    }

    /// The text shown while the editor is empty.
    pub closed spec fn hint(&self) -> Seq<char> {
        self.placeholder@
    }

    /// The column up/down movement aims at, once set.
    pub closed spec fn goal_x(&self) -> Option<usize> {
        self.desired_x
    }

    /// The width the last layout wrapped at.
    pub closed spec fn wrap_width(&self) -> usize {
        self.last_wrap_w
    }

    /// The first visual line shown.
    pub closed spec fn top(&self) -> usize {
        self.scroll
    }

    /// At least one line, and the cursor within the text.
    pub open spec fn wf(&self) -> bool {
        state_ok(self.rows(), self.row(), self.col())
    }

    /// Whether the editor is well formed (see [`PromptEditor::wf`]).
    pub fn is_well_formed(&self) -> (b: bool)
        ensures
            b == self.wf(),
    {
        self.lines.len() >= 1 && self.cursor_row < self.lines.len() && self.cursor_col
            <= self.lines[self.cursor_row].len()
    }

    /// An editor holding `text`, split at newlines, with the cursor at the start.
    pub fn from_text(text: &str, placeholder: &str) -> (e: Self)
        ensures
            e.wf(),
            e.rows() == split_lines(text@),
            e.row() == 0 && e.col() == 0,
            e.goal_x() is None,
            e.top() == 0,
            e.wrap_width() == 80,
            e.hint() == placeholder@,
    {
        let lines = lines_of(text);
        proof {
            lemma_split_nonempty(text@);
        }
        PromptEditor {
            placeholder: String::from_str(placeholder),
            lines,
            cursor_row: 0,
            cursor_col: 0,
            desired_x: None,
            scroll: 0,
            last_wrap_w: 80,
        }
    }

    /// Replaces the text; the cursor and scrolling return to the start.
    pub fn set_text(&mut self, text: &str)
        ensures
            final(self).wf(),
            final(self).rows() == split_lines(text@),
            final(self).row() == 0 && final(self).col() == 0,
            final(self).goal_x() is None,
            final(self).top() == 0,
            final(self).wrap_width() == old(self).wrap_width(),
            final(self).hint() == old(self).hint(),
    {
        self.lines = lines_of(text);
        proof {
            lemma_split_nonempty(text@);
        }
        self.cursor_row = 0;
        self.cursor_col = 0;
        self.desired_x = None;
        self.scroll = 0;
    }

    /// The text: the lines joined by newlines.
    pub fn text(&self) -> (r: String)
        ensures
            r@ == join_lines(self.rows()),
    {
        let ghost rows = self.rows();
        let mut out: Vec<char> = Vec::new();
        let mut i: usize = 0;
        while i < self.lines.len()
            invariant
                i <= self.lines@.len(),
                rows == self.rows(),
                out@ == join_lines(rows.subrange(0, i as int)),
            decreases self.lines@.len() - i,
        {
            proof {
                let p = rows.subrange(0, i + 1);
                assert(p.drop_last() =~= rows.subrange(0, i as int));
                assert(p.last() == self.lines@[i as int]@);
            }
            if i > 0 {
                out.push('\n');
            }
            push_all(&mut out, self.lines[i].as_slice());
            proof {
                let p = rows.subrange(0, i + 1);
                if i == 0 {
                    assert(rows.subrange(0, 0) =~= Seq::<Seq<char>>::empty());
                }
                assert(out@ =~= join_lines(p));
            }
            i = i + 1;
        }
        proof {
            assert(rows.subrange(0, rows.len() as int) =~= rows);
        }
        string_from_chars(out.as_slice())
    }

    /// The number of characters of line `row` (0 past the last line).
    pub fn line_len_chars(&self, row: usize) -> (n: usize)
        ensures
            n == (if row < self.rows().len() {
                self.rows()[row as int].len()
            } else {
                0
            }),
    {
        if row < self.lines.len() {
            self.lines[row].len()
        } else {
            0
        }
    }

    /// The text shown while the editor is empty.
    pub fn placeholder(&self) -> (r: &str)
        ensures
            r@ == self.hint(),
    {
        self.placeholder.as_str()
    }

    /// The cursor: row and column.
    pub fn cursor(&self) -> (r: (usize, usize))
        ensures
            r.0 == self.row() && r.1 == self.col(),
    {
        (self.cursor_row, self.cursor_col)
    }

    pub fn insert_char(&mut self, c: char)
        requires
            old(self).wf(),
        ensures
            final(self).wf(),
            (final(self).rows(), final(self).row(), final(self).col()) == after_insert(
                old(self).rows(),
                old(self).row(),
                old(self).col(),
                c,
            ),
            final(self).goal_x() is None,
            final(self).top() == old(self).top(),
            final(self).wrap_width() == old(self).wrap_width(),
    {
        let row = self.cursor_row;
        let col = self.cursor_col;
        let ghost rows0 = self.rows();
        let mut line = self.lines.remove(row);
        line.insert(col, c);
        let n = line.len();
        self.lines.insert(row, line);
        self.cursor_row = row;
        self.cursor_col = col + 1;
        self.desired_x = None;
        proof {
            assert(self.rows() =~= rows0.update(row as int, rows0[row as int].insert(col as int, c)));
        }
    }

    pub fn backspace(&mut self)
        requires
            old(self).wf(),
        ensures
            final(self).wf(),
            (final(self).rows(), final(self).row(), final(self).col()) == after_backspace(
                old(self).rows(),
                old(self).row(),
                old(self).col(),
            ),
            (old(self).row() > 0 || old(self).col() > 0) ==> final(self).goal_x() is None,
            (old(self).row() == 0 && old(self).col() == 0) ==> final(self).goal_x() == old(self).goal_x(),
            final(self).top() == old(self).top(),
            final(self).wrap_width() == old(self).wrap_width(),
    {
        let ghost rows0 = self.rows();
        if self.cursor_col > 0 {
            let row = self.cursor_row;
            let col = self.cursor_col;
            let mut line = self.lines.remove(row);
            line.remove(col - 1);
            self.lines.insert(row, line);
            self.cursor_col = col - 1;
            self.desired_x = None;
            proof {
                assert(self.rows() =~= rows0.update(row as int, rows0[row as int].remove(col - 1)));
            }
            return;
        }
        if self.cursor_row > 0 {
            let row = self.cursor_row;
            let cur = self.lines.remove(row);
            let mut prev = self.lines.remove(row - 1);
            let prev_len = prev.len();
            push_all(&mut prev, cur.as_slice());
            self.lines.insert(row - 1, prev);
            self.cursor_row = row - 1;
            self.cursor_col = prev_len;
            self.desired_x = None;
            proof {
                assert(self.rows() =~= rows0.update(
                    row - 1,
                    rows0[row - 1] + rows0[row as int],
                ).remove(row as int));
            }
        }
    }

    pub fn insert_newline(&mut self)
        requires
            old(self).wf(),
        ensures
            final(self).wf(),
            (final(self).rows(), final(self).row(), final(self).col()) == after_newline(
                old(self).rows(),
                old(self).row(),
                old(self).col(),
            ),
            final(self).goal_x() is None,
            final(self).top() == old(self).top(),
            final(self).wrap_width() == old(self).wrap_width(),
    {
        let ghost rows0 = self.rows();
        let row = self.cursor_row;
        let col = self.cursor_col;
        let nlines = self.lines.len();
        let line = self.lines.remove(row);
        let head = slice_to_vec(line.as_slice(), 0, col);
        let tail = slice_to_vec(line.as_slice(), col, line.len());
        self.lines.insert(row, head);
        self.lines.insert(row + 1, tail);
        self.cursor_row = row + 1;
        self.cursor_col = 0;
        self.desired_x = None;
        proof {
            assert(self.rows() =~= rows0.update(row as int, rows0[row as int].subrange(0, col as int)).insert(
                row + 1,
                rows0[row as int].subrange(col as int, rows0[row as int].len() as int),
            ));
        }
    }

    pub fn move_left(&mut self)
        requires
            old(self).wf(),
        ensures
            final(self).wf(),
            final(self).rows() == old(self).rows(),
            (final(self).row(), final(self).col()) == after_left(
                old(self).rows(),
                old(self).row(),
                old(self).col(),
            ),
            (final(self).row(), final(self).col()) != (old(self).row(), old(self).col()) ==> final(self).goal_x() is None,
            (final(self).row(), final(self).col()) == (old(self).row(), old(self).col()) ==> final(self).goal_x() == old(self).goal_x(),
            final(self).top() == old(self).top(),
            final(self).wrap_width() == old(self).wrap_width(),
    {
        if self.cursor_col > 0 {
            self.cursor_col = self.cursor_col - 1;
            self.desired_x = None;
            return;
        }
        if self.cursor_row > 0 {
            self.cursor_row = self.cursor_row - 1;
            self.cursor_col = self.lines[self.cursor_row].len();
            self.desired_x = None;
        }
    }

    pub fn move_right(&mut self)
        requires
            old(self).wf(),
        ensures
            final(self).wf(),
            final(self).rows() == old(self).rows(),
            (final(self).row(), final(self).col()) == after_right(
                old(self).rows(),
                old(self).row(),
                old(self).col(),
            ),
            (final(self).row(), final(self).col()) != (old(self).row(), old(self).col()) ==> final(self).goal_x() is None,
            (final(self).row(), final(self).col()) == (old(self).row(), old(self).col()) ==> final(self).goal_x() == old(self).goal_x(),
            final(self).top() == old(self).top(),
            final(self).wrap_width() == old(self).wrap_width(),
    {
        let len = self.lines[self.cursor_row].len();
        if self.cursor_col < len {
            self.cursor_col = self.cursor_col + 1;
            self.desired_x = None;
            return;
        }
        if self.cursor_row < self.lines.len() - 1 {
            self.cursor_row = self.cursor_row + 1;
            self.cursor_col = 0;
            self.desired_x = None;
        }
    }

    /// Home: to the start of the line.
    pub fn move_home(&mut self)
        requires
            old(self).wf(),
        ensures
            final(self).wf(),
            final(self).rows() == old(self).rows(),
            final(self).row() == old(self).row() && final(self).col() == 0,
            final(self).goal_x() is None,
            final(self).top() == old(self).top(),
            final(self).wrap_width() == old(self).wrap_width(),
    {
        self.cursor_col = 0;
        self.desired_x = None;
    }

    /// End: to the end of the line.
    pub fn move_end(&mut self)
        requires
            old(self).wf(),
        ensures
            final(self).wf(),
            final(self).rows() == old(self).rows(),
            final(self).row() == old(self).row(),
            final(self).col() == old(self).rows()[old(self).row()].len(),
            final(self).goal_x() is None,
            final(self).top() == old(self).top(),
            final(self).wrap_width() == old(self).wrap_width(),
    {
        self.cursor_col = self.line_len_chars(self.cursor_row);
        self.desired_x = None;
    }
}

/// The text comes back unchanged from an editor made from it.
pub proof fn law_text_round_trip(t: Seq<char>)
    ensures
        join_lines(split_lines(t)) == t,
    decreases t.len(),
{
    if t.len() > 0 {
        let s = t.drop_last();
        law_text_round_trip(s);
        lemma_split_nonempty(s);
        let p = split_lines(s);
        if t.last() == '\n' {
            assert(p.push(Seq::<char>::empty()).drop_last() =~= p);
            assert(join_lines(split_lines(t)) =~= t);
        } else {
            let q = p.update(p.len() - 1, p.last().push(t.last()));
            assert(t =~= s.push(t.last()));
            if p.len() == 1 {
                assert(join_lines(p) == p[0]);
                assert(q.len() == 1);
                assert(join_lines(q) == q[0]);
                assert(join_lines(q) =~= t);
            } else {
                assert(q.drop_last() =~= p.drop_last());
                assert(join_lines(p) == join_lines(p.drop_last()).push('\n') + p.last());
                assert(join_lines(q) == join_lines(q.drop_last()).push('\n') + q.last());
                assert(join_lines(q) =~= t);
            }
        }
    }
}

/// Typing a character and deleting it again restores the text and the cursor.
pub proof fn law_insert_then_backspace(ls: Seq<Seq<char>>, r: int, c: int, ch: char)
    requires
        state_ok(ls, r, c),
    ensures
        ({
            let (l1, r1, c1) = after_insert(ls, r, c, ch);
            after_backspace(l1, r1, c1) == (ls, r, c)
        }),
{
    let (l1, r1, c1) = after_insert(ls, r, c, ch);
    assert(l1[r].remove(c) =~= ls[r]);
    assert(l1.update(r, l1[r].remove(c)) =~= ls);
}

/// Splitting a line and joining it again restores the text and the cursor.
pub proof fn law_newline_then_backspace(ls: Seq<Seq<char>>, r: int, c: int)
    requires
        state_ok(ls, r, c),
    ensures
        ({
            let (l1, r1, c1) = after_newline(ls, r, c);
            after_backspace(l1, r1, c1) == (ls, r, c)
        }),
{
    let (l1, r1, c1) = after_newline(ls, r, c);
    let head = ls[r].subrange(0, c);
    let tail = ls[r].subrange(c, ls[r].len() as int);
    assert(head + tail =~= ls[r]);
    assert(l1[r] == head);
    assert(l1[r + 1] == tail);
    assert(l1.update(r, l1[r] + l1[r + 1]).remove(r + 1) =~= ls);
}

/// Right then left returns to the same place, except at the very end of
/// the text, where right does not move.
pub proof fn law_right_then_left(ls: Seq<Seq<char>>, r: int, c: int)
    requires
        state_ok(ls, r, c),
        !(r == ls.len() - 1 && c == ls[r].len()),
    ensures
        ({
            let (r1, c1) = after_right(ls, r, c);
            after_left(ls, r1, c1) == (r, c)
        }),
{
}

/// The visual lines of one logical line that start at `start` or later.
pub open spec fn row_segments(chars: Seq<char>, row: int, start: int, w: nat) -> Seq<
    (int, int, int, Seq<char>),
>
    decreases chars.len() - start,
{
    if start < 0 || start >= chars.len() {
        Seq::empty()
    } else {
        let e = wrap_end(chars, start, w);
        if e <= start || e > chars.len() {
            Seq::empty()
        } else {
            seq![(row, start, e, strip_blanks(chars.subrange(start, e)))] + row_segments(
                chars,
                row,
                e,
                w,
            )
        }
    }
}

/// The visual lines of logical line `row`: one empty line for an empty
/// line, else its wrapped segments.
pub open spec fn row_visual(chars: Seq<char>, row: int, w: nat) -> Seq<(int, int, int, Seq<char>)> {
    if chars.len() == 0 {
        seq![(row, 0int, 0int, Seq::<char>::empty())]
    } else {
        row_segments(chars, row, 0, w)
    }
}

/// The visual lines of the first `k` logical lines.
pub open spec fn visual_upto(ls: Seq<Seq<char>>, k: int, w: nat) -> Seq<(int, int, int, Seq<char>)>
    decreases k,
{
    if k <= 0 {
        Seq::empty()
    } else {
        visual_upto(ls, k - 1, w) + row_visual(ls[k - 1], k - 1, w)
    }
}

/// All visual lines at wrap width `w` (none at width 0).
pub open spec fn visual_of(ls: Seq<Seq<char>>, w: nat) -> Seq<(int, int, int, Seq<char>)> {
    if w == 0 {
        Seq::empty()
    } else {
        visual_upto(ls, ls.len() as int, w)
    }
}

pub open spec fn vl_view(v: VisualLine) -> (int, int, int, Seq<char>) {
    (v.row as int, v.start_col as int, v.end_col as int, v.text@)
}

pub open spec fn vl_views(vs: Seq<VisualLine>) -> Seq<(int, int, int, Seq<char>)> {
    vs.map_values(|v: VisualLine| vl_view(v))
}

/// Every visual line lies within its logical line.
pub open spec fn within(ls: Seq<Seq<char>>, vs: Seq<(int, int, int, Seq<char>)>) -> bool {
    forall|i: int|
        0 <= i < vs.len() ==> {
            let (r, a, b, _) = #[trigger] vs[i];
            0 <= r < ls.len() && 0 <= a <= b <= ls[r].len()
        }
}

proof fn lemma_wrap_end_bounds(chars: Seq<char>, start: int, w: nat)
    requires
        0 <= start < chars.len(),
    ensures
        start < wrap_end(chars, start, w) <= chars.len(),
{
    lemma_fit_from_range(chars, start, 0, w);
    let e = fit_from(chars, start, 0, w);
    lemma_last_ws_range(chars, start, e);
}

proof fn lemma_row_segments_within(ls: Seq<Seq<char>>, row: int, start: int, w: nat)
    requires
        0 <= row < ls.len(),
        0 <= start,
    ensures
        within(ls, row_segments(ls[row], row, start, w)),
        row_segments(ls[row], row, start, w).len() > 0 <==> start < ls[row].len(),
    decreases ls[row].len() - start,
{
    let chars = ls[row];
    if start < chars.len() {
        lemma_wrap_end_bounds(chars, start, w);
        let e = wrap_end(chars, start, w);
        lemma_row_segments_within(ls, row, e, w);
        let rest = row_segments(chars, row, e, w);
        let all = row_segments(chars, row, start, w);
        assert forall|i: int| 0 <= i < all.len() implies {
            let (r, a, b, _) = #[trigger] all[i];
            0 <= r < ls.len() && 0 <= a <= b <= ls[r].len()
        } by {
            if i > 0 {
                assert(all[i] == rest[i - 1]);
            }
        }
    }
}

proof fn lemma_visual_upto_within(ls: Seq<Seq<char>>, k: int, w: nat)
    requires
        0 <= k <= ls.len(),
    ensures
        within(ls, visual_upto(ls, k, w)),
        visual_upto(ls, k, w).len() >= k,
    decreases k,
{
    if k > 0 {
        lemma_visual_upto_within(ls, k - 1, w);
        let p = visual_upto(ls, k - 1, w);
        let q = row_visual(ls[k - 1], k - 1, w);
        if ls[k - 1].len() > 0 {
            lemma_row_segments_within(ls, k - 1, 0, w);
        }
        assert(within(ls, q));
        let all = p + q;
        assert forall|i: int| 0 <= i < all.len() implies {
            let (r, a, b, _) = #[trigger] all[i];
            0 <= r < ls.len() && 0 <= a <= b <= ls[r].len()
        } by {
            if i < p.len() {
                assert(all[i] == p[i]);
            } else {
                assert(all[i] == q[i - p.len()]);
            }
        }
    }
}

/// Where the cursor (row, col) shows among the visual lines `vs` from index
/// `i` on: the first line of its row whose range holds the column, and the
/// width of the text before it there (capped at `cap`); the origin when no
/// line holds it.
pub open spec fn cursor_cell(
    vs: Seq<(int, int, int, Seq<char>)>,
    ls: Seq<Seq<char>>,
    row: int,
    col: int,
    i: int,
    cap: nat,
) -> (int, int)
    decreases vs.len() - i,
{
    if i < 0 || i >= vs.len() {
        (0, 0)
    } else {
        let (r, a, b, _) = vs[i];
        if r == row && a <= col <= b {
            let wd = text_cells(slice_of(ls[row], a as nat, col as nat)) as nat;
            (i, if wd > cap {
                cap as int
            } else {
                wd as int
            })
        } else {
            cursor_cell(vs, ls, row, col, i + 1, cap)
        }
    }
}

proof fn lemma_cursor_cell_range(
    vs: Seq<(int, int, int, Seq<char>)>,
    ls: Seq<Seq<char>>,
    row: int,
    col: int,
    i: int,
    cap: nat,
)
    requires
        0 <= i,
    ensures
        cursor_cell(vs, ls, row, col, i, cap).0 == 0 || (0 <= cursor_cell(vs, ls, row, col, i, cap).0
            < vs.len()),
        0 <= cursor_cell(vs, ls, row, col, i, cap).1 <= cap,
    decreases vs.len() - i,
{
    if i < vs.len() {
        let (r, a, b, _) = vs[i];
        if !(r == row && a <= col <= b) {
            lemma_cursor_cell_range(vs, ls, row, col, i + 1, cap);
        }
    }
}

proof fn lemma_col_fit_range(chars: Seq<char>, i: int, end: int, x: nat, want_x: nat)
    requires
        0 <= i <= end <= chars.len(),
    ensures
        i <= col_fit(chars, i, end, x, want_x) <= end,
    decreases end - i,
{
    if i < end && x + cell(chars[i]) <= want_x {
        lemma_col_fit_range(chars, i + 1, end, x + cell(chars[i]), want_x);
    }
}

/// The visual line up or down movement lands on, `delta` lines from `cy`,
/// kept within `[0, n)`.
pub open spec fn target_line(cy: int, delta: i32, n: int) -> int {
    if delta < 0 {
        if -(delta as int) > cy {
            0
        } else {
            cy + delta
        }
    } else if delta >= n - 1 - cy {
        n - 1
    } else {
        cy + delta
    }
}

/// Moving `delta` visual lines: the cursor goes to the column nearest the
/// remembered column (or its current one) on the target line.
pub open spec fn after_visual(
    ls: Seq<Seq<char>>,
    row: int,
    col: int,
    goal: Option<usize>,
    wrap: usize,
    delta: i32,
) -> (int, int, Option<usize>) {
    let w: nat = if wrap == 0 {
        1
    } else {
        wrap as nat
    };
    let vs = visual_of(ls, w);
    if vs.len() == 0 {
        (row, col, goal)
    } else {
        let (cy, cx) = cursor_cell(vs, ls, row, col, 0, wrap as nat);
        let vx: int = match goal {
            Some(g) => g as int,
            None => cx,
        };
        let t = target_line(cy, delta, vs.len() as int);
        let (r, a, b, _) = vs[t];
        (r, col_fit(ls[r], a, b, 0, vx as nat), Some(vx as usize))
    }
}

impl PromptEditor {
    /// The visual lines of the text wrapped at `wrap_w` columns.
    pub fn visual_lines(&self, wrap_w: usize) -> (r: Vec<VisualLine>)
        requires
            self.wf(),
        ensures
            vl_views(r@) == visual_of(self.rows(), wrap_w as nat),
            within(self.rows(), vl_views(r@)),
    {
        let ghost rows = self.rows();
        let mut out: Vec<VisualLine> = Vec::new();
        if wrap_w == 0 {
            proof {
                assert(vl_views(out@) =~= Seq::<(int, int, int, Seq<char>)>::empty());
            }
            return out;
        }
        let mut row: usize = 0;
        while row < self.lines.len()
            invariant
                rows == self.rows(),
                wrap_w > 0,
                row <= self.lines@.len(),
                vl_views(out@) == visual_upto(rows, row as int, wrap_w as nat),
            decreases self.lines@.len() - row,
        {
            let line = &self.lines[row];
            proof {
                assert(line@ == rows[row as int]);
            }
            if line.len() == 0 {
                let ghost before = vl_views(out@);
                out.push(VisualLine { row, start_col: 0, end_col: 0, text: String::new() });
                proof {
                    assert(vl_views(out@) =~= before + row_visual(rows[row as int], row as int, wrap_w as nat));
                }
            } else {
                let ghost base = vl_views(out@);
                let ghost mut done: Seq<(int, int, int, Seq<char>)> = Seq::empty();
                let mut start: usize = 0;
                proof {
                    assert(row_segments(line@, row as int, 0, wrap_w as nat) =~= done + row_segments(
                        line@,
                        row as int,
                        0,
                        wrap_w as nat,
                    ));
                }
                while start < line.len()
                    invariant
                        wrap_w > 0,
                        start <= line@.len(),
                        vl_views(out@) == base + done,
                        row_segments(line@, row as int, 0, wrap_w as nat) == done + row_segments(
                            line@,
                            row as int,
                            start as int,
                            wrap_w as nat,
                        ),
                    decreases line@.len() - start,
                {
                    let (end, text) = wrap_segment(line.as_slice(), start, wrap_w);
                    let ghost item = (row as int, start as int, end as int, text@);
                    let ghost before = vl_views(out@);
                    out.push(VisualLine { row, start_col: start, end_col: end, text });
                    proof {
                        assert(vl_views(out@) =~= before.push(item));
                        let rest = row_segments(line@, row as int, end as int, wrap_w as nat);
                        assert(row_segments(line@, row as int, start as int, wrap_w as nat) == seq![
                            item,
                        ] + rest);
                        assert(done + (seq![item] + rest) =~= done.push(item) + rest);
                        done = done.push(item);
                    }
                    start = end;
                }
                proof {
                    assert(row_segments(line@, row as int, start as int, wrap_w as nat) =~= Seq::<
                        (int, int, int, Seq<char>),
                    >::empty());
                    assert(done =~= row_visual(rows[row as int], row as int, wrap_w as nat));
                }
            }
            row = row + 1;
        }
        proof {
            lemma_visual_upto_within(rows, rows.len() as int, wrap_w as nat);
        }
        out
    }

    /// Where the cursor shows among `visual`: (visual line, column in cells).
    pub fn cursor_visual_pos(&self, visual: &[VisualLine]) -> (r: (usize, usize))
        requires
            self.wf(),
        ensures
            (r.0 as int, r.1 as int) == cursor_cell(
                vl_views(visual@),
                self.rows(),
                self.row(),
                self.col(),
                0,
                self.wrap_width() as nat,
            ),
    {
        let ghost vs = vl_views(visual@);
        let row = self.cursor_row;
        let col = self.cursor_col;
        let mut i: usize = 0;
        while i < visual.len()
            invariant
                self.wf(),
                row == self.row() && col == self.col(),
                vs == vl_views(visual@),
                i <= visual@.len(),
                cursor_cell(vs, self.rows(), row as int, col as int, 0, self.wrap_width() as nat)
                    == cursor_cell(vs, self.rows(), row as int, col as int, i as int, self.wrap_width() as nat),
            decreases visual@.len() - i,
        {
            let vl = &visual[i];
            proof {
                assert(vs[i as int] == vl_view(*vl));
            }
            if vl.row == row && vl.start_col <= col && col <= vl.end_col {
                let seg = slice_chars(self.lines[row].as_slice(), vl.start_col, col);
                let text = string_from_chars(seg.as_slice());
                let wd = str_width(text.as_str());
                proof {
                    assert(self.lines@[row as int]@ == self.rows()[row as int]);
                }
                let x = if wd > self.last_wrap_w {
                    self.last_wrap_w
                } else {
                    wd
                };
                return (i, x);
            }
            i = i + 1;
        }
        (0, 0)
    }

    /// Up (`delta` < 0) or down by `|delta|` visual lines.
    pub fn move_visual(&mut self, delta: i32)
        requires
            old(self).wf(),
        ensures
            final(self).wf(),
            final(self).rows() == old(self).rows(),
            (final(self).row(), final(self).col(), final(self).goal_x()) == after_visual(
                old(self).rows(),
                old(self).row(),
                old(self).col(),
                old(self).goal_x(),
                old(self).wrap_width(),
                delta,
            ),
            final(self).top() == old(self).top(),
            final(self).wrap_width() == old(self).wrap_width(),
    {
        let wrap_w = if self.last_wrap_w == 0 {
            1
        } else {
            self.last_wrap_w
        };
        let visual = self.visual_lines(wrap_w);
        if visual.len() == 0 {
            return;
        }
        let (cur_vy, cur_vx) = self.cursor_visual_pos(visual.as_slice());
        proof {
            lemma_cursor_cell_range(
                vl_views(visual@),
                self.rows(),
                self.row(),
                self.col(),
                0,
                self.wrap_width() as nat,
            );
        }
        let vx = match self.desired_x {
            Some(g) => g,
            None => cur_vx,
        };
        let n = visual.len();
        let target: usize = if delta < 0 {
            let mag: u64 = (-(delta as i64)) as u64;
            if mag > cur_vy as u64 {
                0
            } else {
                cur_vy - (mag as usize)
            }
        } else {
            let mag: u64 = delta as u64;
            if mag >= (n - 1 - cur_vy) as u64 {
                n - 1
            } else {
                cur_vy + (mag as usize)
            }
        };
        let vl = &visual[target];
        proof {
            assert(vl_views(visual@)[target as int] == vl_view(*vl));
            assert(target as int == target_line(cur_vy as int, delta, n as int));
        }
        let row = vl.row;
        let col = col_at_x(self.lines[row].as_slice(), vl.start_col, vl.end_col, vx);
        proof {
            assert(self.lines@[row as int]@ == self.rows()[row as int]);
            lemma_col_fit_range(self.rows()[row as int], vl.start_col as int, vl.end_col as int, 0, vx as nat);
        }
        self.cursor_row = row;
        self.cursor_col = col;
        self.desired_x = Some(vx);
    }

    /// Reacts to a key (see [`editor_step`]).
    pub fn handle_key(&mut self, k: EditorKey)
        requires
            old(self).wf(),
        ensures
            final(self).wf(),
            editor_step(*old(self), k, *final(self)),
    {
        match k {
            EditorKey::Char(c) => self.insert_char(c),
            EditorKey::Backspace => self.backspace(),
            EditorKey::Enter => self.insert_newline(),
            EditorKey::Left => self.move_left(),
            EditorKey::Right => self.move_right(),
            EditorKey::Up => self.move_visual(-1),
            EditorKey::Down => self.move_visual(1),
            EditorKey::Home => self.move_home(),
            EditorKey::End => self.move_end(),
            _ => {},
        }
    }
}

/// What a key does to the editor `o`, giving `n`: characters, backspace and
/// enter edit the text; the arrows, home and end move the cursor; other keys
/// change nothing. Scrolling and the wrap width are kept.
pub open spec fn editor_step(o: PromptEditor, k: EditorKey, n: PromptEditor) -> bool {
    &&& match k {
        EditorKey::Char(c) => (n.rows(), n.row(), n.col()) == after_insert(o.rows(), o.row(), o.col(), c),
        EditorKey::Backspace => (n.rows(), n.row(), n.col()) == after_backspace(o.rows(), o.row(), o.col()),
        EditorKey::Enter => (n.rows(), n.row(), n.col()) == after_newline(o.rows(), o.row(), o.col()),
        EditorKey::Left => n.rows() == o.rows() && (n.row(), n.col()) == after_left(o.rows(), o.row(), o.col()),
        EditorKey::Right => n.rows() == o.rows() && (n.row(), n.col()) == after_right(o.rows(), o.row(), o.col()),
        EditorKey::Up => n.rows() == o.rows() && (n.row(), n.col(), n.goal_x()) == after_visual(
            o.rows(),
            o.row(),
            o.col(),
            o.goal_x(),
            o.wrap_width(),
            -1i32,
        ),
        EditorKey::Down => n.rows() == o.rows() && (n.row(), n.col(), n.goal_x()) == after_visual(
            o.rows(),
            o.row(),
            o.col(),
            o.goal_x(),
            o.wrap_width(),
            1i32,
        ),
        EditorKey::Home => n.rows() == o.rows() && n.row() == o.row() && n.col() == 0,
        EditorKey::End => n.rows() == o.rows() && n.row() == o.row() && n.col() == o.rows()[o.row()].len(),
        _ => n.rows() == o.rows() && n.row() == o.row() && n.col() == o.col() && n.goal_x() == o.goal_x(),
    }
    &&& n.top() == o.top()
    &&& n.wrap_width() == o.wrap_width()
}

/// What the prompt box shows: its lines (each padded with spaces to the
/// wrap width), whether they are the placeholder, and where the cursor is
/// inside the box, when it is visible.
#[derive(Debug)]
pub struct EditorLayout {
    pub lines: Vec<String>,
    pub placeholder: bool,
    pub cursor: Option<(usize, usize)>,
}

/// `t` padded with spaces to `width` columns.
pub open spec fn padded(t: Seq<char>, width: nat) -> Seq<char> {
    let w = text_cells(t) as nat;
    if w < width {
        t + Seq::new((width - w) as nat, |i: int| ' ')
    } else {
        t
    }
}

/// The scroll position that keeps visual line `cy` inside a window of
/// `height` lines starting at `scroll`.
pub open spec fn scrolled(scroll: nat, cy: nat, height: nat) -> nat {
    if cy < scroll {
        cy
    } else if cy - scroll >= height {
        (cy - (height - 1)) as nat
    } else {
        scroll
    }
}

fn pad_to(t: &str, width: usize) -> (r: String)
    ensures
        r@ == padded(t@, width as nat),
{
    let w = str_width(t);
    let mut v = str_chars(t);
    if w < width {
        let ghost base = v@;
        let mut k: usize = 0;
        while k < width - w
            invariant
                w < width,
                k <= width - w,
                v@ == base + Seq::new(k as nat, |i: int| ' '),
            decreases width - w - k,
        {
            v.push(' ');
            k = k + 1;
            assert(v@ =~= base + Seq::new(k as nat, |i: int| ' '));
        }
    }
    string_from_chars(v.as_slice())
}

impl PromptEditor {
    /// Lays the editor out in a box of `width` x `height` cells: wraps at the
    /// width, remembers the cursor's column for up/down when none is, scrolls
    /// so that the cursor's line is visible, and lists the visible lines (or
    /// the placeholder while the text is empty).  Nothing happens in an
    /// empty box.
    pub fn layout(&mut self, width: usize, height: usize) -> (r: EditorLayout)
        requires
            old(self).wf(),
        ensures
            final(self).wf(),
            final(self).rows() == old(self).rows(),
            final(self).row() == old(self).row() && final(self).col() == old(self).col(),
            width == 0 || height == 0 ==> final(self).wrap_width() == old(self).wrap_width()
                && final(self).goal_x() == old(self).goal_x() && final(self).top() == old(self).top()
                && r.lines@.len() == 0 && !r.placeholder && r.cursor is None,
            width > 0 && height > 0 ==> ({
                let vs = visual_of(old(self).rows(), width as nat);
                let (cy, cx) = cursor_cell(
                    vs,
                    old(self).rows(),
                    old(self).row(),
                    old(self).col(),
                    0,
                    width as nat,
                );
                let top = scrolled(old(self).top() as nat, cy as nat, height as nat);
                let start = if top > vs.len() {
                    vs.len() as int
                } else {
                    top as int
                };
                let stop = if start + height > vs.len() {
                    vs.len() as int
                } else {
                    start + height
                };
                let empty = (old(self).rows().len() == 1 && old(self).rows()[0].len() == 0) || vs.len()
                    == 0;
                &&& final(self).wrap_width() == width
                &&& final(self).goal_x() == (match old(self).goal_x() {
                    Some(g) => Some(g),
                    None => Some(cx as usize),
                })
                &&& final(self).top() == top
                &&& r.placeholder == empty
                &&& empty ==> r.lines@.map_values(|l: String| l@) == seq![old(self).hint()]
                &&& !empty ==> r.lines@.map_values(|l: String| l@) == Seq::new(
                    (stop - start) as nat,
                    |k: int| padded(vs[start + k].3, width as nat),
                )
                &&& top <= cy
                &&& r.cursor == (if cy - top < height {
                    Some(((cx as usize), ((cy - top) as usize)))
                } else {
                    None
                })
            }),
    {
        if width == 0 || height == 0 {
            return EditorLayout { lines: Vec::new(), placeholder: false, cursor: None };
        }
        self.last_wrap_w = width;
        let visual = self.visual_lines(width);
        let (cur_vy, cur_vx) = self.cursor_visual_pos(visual.as_slice());
        proof {
            lemma_cursor_cell_range(vl_views(visual@), self.rows(), self.row(), self.col(), 0, width as nat);
        }
        if self.desired_x.is_none() {
            self.desired_x = Some(cur_vx);
        }
        if cur_vy < self.scroll {
            self.scroll = cur_vy;
        } else if cur_vy - self.scroll >= height {
            self.scroll = cur_vy - (height - 1);
        }
        let n = visual.len();
        let start = if self.scroll > n {
            n
        } else {
            self.scroll
        };
        let stop = if height > n - start {
            n
        } else {
            start + height
        };
        let mut out: Vec<String> = Vec::new();
        let empty = (self.lines.len() == 1 && self.lines[0].len() == 0) || n == 0;
        if empty {
            out.push(self.placeholder.clone());
            proof {
                assert(out@.map_values(|l: String| l@) =~= seq![self.hint()]);
            }
        } else {
            let mut k: usize = start;
            while k < stop
                invariant
                    start <= k <= stop <= n,
                    n == visual@.len(),
                    out@.map_values(|l: String| l@) == Seq::new(
                        (k - start) as nat,
                        |j: int| padded(vl_views(visual@)[start + j].3, width as nat),
                    ),
                decreases stop - k,
            {
                let ghost before = out@.map_values(|l: String| l@);
                let item = pad_to(visual[k].text.as_str(), width);
                proof {
                    assert(vl_views(visual@)[k as int] == vl_view(visual@[k as int]));
                    assert(item@ == padded(vl_views(visual@)[start + (k - start)].3, width as nat));
                }
                out.push(item);
                proof {
                    assert(out@.map_values(|l: String| l@) =~= before.push(item@));
                    assert(out@.map_values(|l: String| l@) =~= Seq::new(
                        (k + 1 - start) as nat,
                        |j: int| padded(vl_views(visual@)[start + j].3, width as nat),
                    ));
                }
                k = k + 1;
            }
        }
        let cursor = if cur_vy - self.scroll < height {
            Some((cur_vx, cur_vy - self.scroll))
        } else {
            None
        };
        EditorLayout { lines: out, placeholder: empty, cursor }
    }
}

/// A secret as shown on screen: one star per byte of the trimmed value, at
/// most 32; nothing when blank.
pub open spec fn masked(k: Seq<char>) -> Seq<char> {
    let n = encode_utf8(trim(k)).len();
    let m = if n > 32 {
        32
    } else {
        n
    };
    if trim(k).len() == 0 {
        Seq::empty()
    } else {
        Seq::new(m, |i: int| '*')
    }
}

pub fn mask_key(k: &str) -> (r: String)
    ensures
        r@ == masked(k@),
{
    let t = crate::text::trim_str(k);
    if t.unicode_len() == 0 {
        return String::new();
    }
    let bytes = t.as_str().as_bytes();
    let n = if bytes.len() > 32 {
        32
    } else {
        bytes.len()
    };
    let mut v: Vec<char> = Vec::new();
    let mut i: usize = 0;
    while i < n
        invariant
            i <= n,
            v@ == Seq::new(i as nat, |j: int| '*'),
        decreases n - i,
    {
        v.push('*');
        i = i + 1;
        assert(v@ =~= Seq::new(i as nat, |j: int| '*'));
    }
    string_from_chars(v.as_slice())
}

/// A context length: nothing when not positive.
pub fn format_ctx(n: i64) -> (r: String)
    ensures
        r@ == (if n <= 0 {
            Seq::empty()
        } else {
            decimal_int(n as int)
        }),
{
    if n <= 0 {
        String::new()
    } else {
        let d = i64_decimal(n);
        string_from_chars(d.as_slice())
    }
}

/// A text cut to `max` characters once trimmed: the last three kept
/// characters become `...` when there is room for them.
pub open spec fn truncated(s: Seq<char>, max: nat) -> Seq<char> {
    let t = trim(s);
    if max == 0 || t.len() <= max {
        t
    } else if max <= 3 {
        t.subrange(0, max as int)
    } else {
        t.subrange(0, max - 3) + seq!['.', '.', '.']
    }
}

pub fn trunc(s: &str, max: usize) -> (r: String)
    ensures
        r@ == truncated(s@, max as nat),
{
    let t = trim_chars(s);
    if max == 0 || t.len() <= max {
        return string_from_chars(t.as_slice());
    }
    if max <= 3 {
        let head = slice_to_vec(t.as_slice(), 0, max);
        return string_from_chars(head.as_slice());
    }
    let mut out = slice_to_vec(t.as_slice(), 0, max - 3);
    out.push('.');
    out.push('.');
    out.push('.');
    proof {
        assert(out@ =~= t@.subrange(0, max - 3) + seq!['.', '.', '.']);
    }
    string_from_chars(out.as_slice())
}

/// Switches an agent between OpenRouter and Ollama; an Ollama agent without
/// a base URL gets the local default.
pub fn toggle_agent_provider(a: &mut Agent)
    ensures
        final(a).provider == (if old(a).provider == Provider::OpenRouter {
            Provider::Ollama
        } else {
            Provider::OpenRouter
        }),
        final(a).base_url@ == (if final(a).provider == Provider::Ollama && trim(
            old(a).base_url@,
        ).len() == 0 {
            "http://localhost:11434/v1"@
        } else {
            old(a).base_url@
        }),
        final(a).name == old(a).name,
        final(a).model == old(a).model,
        final(a).api_key == old(a).api_key,
        final(a).http_referer == old(a).http_referer,
        final(a).x_title == old(a).x_title,
{
    a.provider = match a.provider {
        Provider::OpenRouter => Provider::Ollama,
        Provider::Ollama => Provider::OpenRouter,
    };
    if a.provider == Provider::Ollama && is_trim_empty(a.base_url.as_str()) {
        a.base_url = String::from_str("http://localhost:11434/v1");
    }
}

/// The row selected after moving `delta` rows from `selected` in a table of
/// `len` rows: clamped to the table; nothing in an empty table.
pub fn move_table_selection(len: usize, selected: Option<usize>, delta: i32) -> (r: Option<usize>)
    requires
        len <= i32::MAX,
        selected matches Some(s) ==> s <= i32::MAX,
        i32::MIN <= (match selected {
            Some(s) => s as int,
            None => 0,
        }) + delta <= i32::MAX,
    ensures
        ({
            let cur: int = match selected {
                Some(s) => s as int,
                None => 0,
            };
            let next = cur + delta;
            r == (if len == 0 {
                None
            } else if next < 0 {
                Some(0usize)
            } else if next >= len {
                Some((len - 1) as usize)
            } else {
                Some(next as usize)
            })
        }),
{
    if len == 0 {
        return None;
    }
    let cur: i32 = match selected {
        Some(s) => s as i32,
        None => 0,
    };
    let mut next: i32 = cur + delta;
    if next < 0 {
        next = 0;
    }
    if next as usize >= len {
        next = (len - 1) as i32;
    }
    Some(next as usize)
}

/// The heading of the sort column and direction.
pub open spec fn sort_name(col: usize) -> Seq<char> {
    if col == 0 {
        "ID"@
    } else if col == 1 {
        "Ctx"@
    } else if col == 2 {
        "Prompt/$1M"@
    } else if col == 3 {
        "Comp/$1M"@
    } else if col == 4 {
        "CacheR/$1M"@
    } else if col == 5 {
        "CacheW/$1M"@
    } else if col == 6 {
        "Req"@
    } else {
        "?"@
    }
}

pub fn sort_label(col: usize, asc: bool) -> (r: String)
    ensures
        r@ == sort_name(col) + seq![' '] + (if asc {
            "asc"@
        } else {
            "desc"@
        }),
{
    let name = if col == 0 {
        "ID"
    } else if col == 1 {
        "Ctx"
    } else if col == 2 {
        "Prompt/$1M"
    } else if col == 3 {
        "Comp/$1M"
    } else if col == 4 {
        "CacheR/$1M"
    } else if col == 5 {
        "CacheW/$1M"
    } else if col == 6 {
        "Req"
    } else {
        "?"
    };
    let mut v = str_chars(name);
    v.push(' ');
    crate::text::push_str_chars(
        &mut v,
        if asc {
            "asc"
        } else {
            "desc"
        },
    );
    string_from_chars(v.as_slice())
}

} // verus!
