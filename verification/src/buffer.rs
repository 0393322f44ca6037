//! The text buffer: lines of characters and a cursor, edited by discrete
//! actions (insert, paste, newline, backspace, delete, cursor motion).

use vstd::prelude::*;

use crate::text_ops::{
    chars_range, chars_to_string, join_lines, line_ok, lines_ok, split_lines, str_to_chars,
    lemma_join_push, lemma_split_lines_len, lemma_split_lines_ok,
};

verus! {

/// A cursor motion, relative to the current position or to the document.
#[derive(Clone, Copy, Debug, PartialEq, Eq, Structural)]
pub enum Motion {
    Left,
    Right,
    Up,
    Down,
    Home,
    End,
    DocumentStart,
    DocumentEnd,
}

/// One discrete edit of the buffer.
#[derive(Clone, Debug, PartialEq, Eq)]
pub enum EditAction {
    /// Insert one character at the cursor; a newline breaks the line.
    Insert(char),
    /// Insert a whole text at the cursor, character by character.
    Paste(String),
    /// Break the current line at the cursor.
    Enter,
    /// Remove the character before the cursor, joining lines at a line start.
    Backspace,
    /// Remove the character after the cursor, joining lines at a line end.
    Delete,
    /// Move the cursor.
    Move(Motion),
}

/// The mathematical value of a buffer: its lines and the cursor position.
pub ghost struct BufView {
    pub lines: Seq<Seq<char>>,
    pub line: nat,
    pub col: nat,
}

/// A well-formed buffer: at least one line, no line holds a newline, and the
/// cursor sits on a line, at or before its end.
pub open spec fn buf_wf(b: BufView) -> bool {
    &&& lines_ok(b.lines)
    &&& b.line < b.lines.len()
    &&& b.col <= b.lines[b.line as int].len()
}

/// The empty buffer: one empty line, cursor at its start.
pub open spec fn empty_buf() -> BufView {
    BufView { lines: seq![Seq::<char>::empty()], line: 0, col: 0 }
}

/// Breaking the current line at the cursor.
pub open spec fn spec_enter(b: BufView) -> BufView {
    let cur = b.lines[b.line as int];
    BufView {
        lines: b.lines.take(b.line as int) + seq![cur.take(b.col as int)] + seq![
            cur.skip(b.col as int),
        ] + b.lines.skip(b.line as int + 1),
        line: b.line + 1,
        col: 0,
    }
}

/// Inserting one character at the cursor; a newline breaks the line.
pub open spec fn spec_insert_char(b: BufView, c: char) -> BufView {
    if c == '\n' {
        spec_enter(b)
    } else {
        BufView {
            lines: b.lines.update(
                b.line as int,
                b.lines[b.line as int].insert(b.col as int, c),
            ),
            line: b.line,
            col: b.col + 1,
        }
    }
}

/// Inserting a text at the cursor, character by character.
pub open spec fn spec_paste(b: BufView, s: Seq<char>) -> BufView
    decreases s.len(),
{
    if s.len() == 0 {
        b
    } else {
        spec_paste(spec_insert_char(b, s[0]), s.skip(1))
    }
}

/// Removing the character before the cursor; at a line start, the current
/// line is joined onto the previous one.
pub open spec fn spec_backspace(b: BufView) -> BufView {
    let cur = b.lines[b.line as int];
    if b.col > 0 {
        BufView {
            lines: b.lines.update(b.line as int, cur.remove(b.col as int - 1)),
            line: b.line,
            col: (b.col - 1) as nat,
        }
    } else if b.line > 0 {
        let prev = b.lines[b.line as int - 1];
        BufView {
            lines: b.lines.take(b.line as int - 1) + seq![prev + cur] + b.lines.skip(
                b.line as int + 1,
            ),
            line: (b.line - 1) as nat,
            col: prev.len(),
        }
    } else {
        b
    }
}

/// Removing the character after the cursor; at a line end, the next line is
/// joined onto the current one.
pub open spec fn spec_delete(b: BufView) -> BufView {
    let cur = b.lines[b.line as int];
    if b.col < cur.len() {
        BufView {
            lines: b.lines.update(b.line as int, cur.remove(b.col as int)),
            line: b.line,
            col: b.col,
        }
    } else if b.line + 1 < b.lines.len() {
        let next = b.lines[b.line as int + 1];
        BufView {
            lines: b.lines.take(b.line as int) + seq![cur + next] + b.lines.skip(
                b.line as int + 2,
            ),
            line: b.line,
            col: b.col,
        }
    } else {
        b
    }
}

/// Moving the cursor; motions past an edge stop at the edge.
pub open spec fn spec_move(b: BufView, m: Motion) -> BufView {
    let cur = b.lines[b.line as int];
    match m {
        Motion::Left => if b.col > 0 {
            BufView { lines: b.lines, line: b.line, col: (b.col - 1) as nat }
        } else if b.line > 0 {
            BufView {
                lines: b.lines,
                line: (b.line - 1) as nat,
                col: b.lines[b.line as int - 1].len(),
            }
        } else {
            b
        },
        Motion::Right => if b.col < cur.len() {
            BufView { lines: b.lines, line: b.line, col: b.col + 1 }
        } else if b.line + 1 < b.lines.len() {
            BufView { lines: b.lines, line: b.line + 1, col: 0 }
        } else {
            b
        },
        Motion::Up => if b.line > 0 {
            let above = b.lines[b.line as int - 1];
            BufView {
                lines: b.lines,
                line: (b.line - 1) as nat,
                col: if b.col <= above.len() {
                    b.col
                } else {
                    above.len()
                },
            }
        } else {
            b
        },
        Motion::Down => if b.line + 1 < b.lines.len() {
            let below = b.lines[b.line as int + 1];
            BufView {
                lines: b.lines,
                line: b.line + 1,
                col: if b.col <= below.len() {
                    b.col
                } else {
                    below.len()
                },
            }
        } else {
            b
        },
        Motion::Home => BufView { lines: b.lines, line: b.line, col: 0 },
        Motion::End => BufView { lines: b.lines, line: b.line, col: cur.len() },
        Motion::DocumentStart => BufView { lines: b.lines, line: 0, col: 0 },
        Motion::DocumentEnd => BufView {
            lines: b.lines,
            line: (b.lines.len() - 1) as nat,
            col: b.lines[b.lines.len() - 1].len(),
        },
    }
}

/// The buffer an edit action leaves behind.
pub open spec fn apply_edit(b: BufView, a: EditAction) -> BufView {
    match a {
        EditAction::Insert(c) => spec_insert_char(b, c),
        EditAction::Paste(s) => spec_paste(b, s@),
        EditAction::Enter => spec_enter(b),
        EditAction::Backspace => spec_backspace(b),
        EditAction::Delete => spec_delete(b),
        EditAction::Move(m) => spec_move(b, m),
    }
}

/// A sequence of edit actions, applied in order.
pub open spec fn apply_edits(b: BufView, actions: Seq<EditAction>) -> BufView
    decreases actions.len(),
{
    if actions.len() == 0 {
        b
    } else {
        apply_edits(apply_edit(b, actions[0]), actions.skip(1))
    }
}

/// A take of a newline-free line is newline-free.
proof fn lemma_take_line_ok(l: Seq<char>, k: int)
    requires
        line_ok(l),
        0 <= k <= l.len(),
    ensures
        line_ok(l.take(k)),
{
    if l.take(k).contains('\n') {
        let j = choose|j: int| 0 <= j < l.take(k).len() && l.take(k)[j] == '\n';
        assert(l[j] == '\n');
        assert(l.contains('\n'));
        assert(false);
    }
}

/// A skip of a newline-free line is newline-free.
proof fn lemma_skip_line_ok(l: Seq<char>, k: int)
    requires
        line_ok(l),
        0 <= k <= l.len(),
    ensures
        line_ok(l.skip(k)),
{
    if l.skip(k).contains('\n') {
        let j = choose|j: int| 0 <= j < l.skip(k).len() && l.skip(k)[j] == '\n';
        assert(l[j + k] == '\n');
        assert(l.contains('\n'));
        assert(false);
    }
}

/// Removing a character from a newline-free line keeps it newline-free.
proof fn lemma_remove_line_ok(l: Seq<char>, k: int)
    requires
        line_ok(l),
        0 <= k < l.len(),
    ensures
        line_ok(l.remove(k)),
{
    let r = l.remove(k);
    if r.contains('\n') {
        let j = choose|j: int| 0 <= j < r.len() && r[j] == '\n';
        if j < k {
            assert(l[j] == '\n');
        } else {
            assert(l[j + 1] == '\n');
        }
        assert(l.contains('\n'));
        assert(false);
    }
}

pub proof fn lemma_enter_wf(b: BufView)
    requires
        buf_wf(b),
    ensures
        buf_wf(spec_enter(b)),
{
    let cur = b.lines[b.line as int];
    let t = spec_enter(b).lines;
    lemma_take_line_ok(cur, b.col as int);
    lemma_skip_line_ok(cur, b.col as int);
    assert forall|i: int| 0 <= i < t.len() implies line_ok(#[trigger] t[i]) by {
        if i < b.line as int {
            assert(t[i] == b.lines[i]);
        } else if i > b.line as int + 1 {
            assert(t[i] == b.lines[i - 1]);
        }
    }
}

pub proof fn lemma_insert_char_wf(b: BufView, c: char)
    requires
        buf_wf(b),
    ensures
        buf_wf(spec_insert_char(b, c)),
{
    if c == '\n' {
        lemma_enter_wf(b);
    } else {
        let cur = b.lines[b.line as int];
        let row = cur.insert(b.col as int, c);
        assert(line_ok(row)) by {
            if row.contains('\n') {
                let j = choose|j: int| 0 <= j < row.len() && row[j] == '\n';
                if j < b.col as int {
                    assert(row[j] == cur[j]);
                    assert(cur.contains('\n'));
                } else if j == b.col as int {
                    assert(row[j] == c);
                } else {
                    assert(row[j] == cur[j - 1]);
                    assert(cur.contains('\n'));
                }
                assert(false);
            }
        }
        let t = spec_insert_char(b, c).lines;
        assert forall|i: int| 0 <= i < t.len() implies line_ok(#[trigger] t[i]) by {
            if i != b.line as int {
                assert(t[i] == b.lines[i]);
            }
        }
    }
}

pub proof fn lemma_paste_wf(b: BufView, s: Seq<char>)
    requires
        buf_wf(b),
    ensures
        buf_wf(spec_paste(b, s)),
    decreases s.len(),
{
    if s.len() > 0 {
        lemma_insert_char_wf(b, s[0]);
        lemma_paste_wf(spec_insert_char(b, s[0]), s.skip(1));
    }
}

pub proof fn lemma_backspace_wf(b: BufView)
    requires
        buf_wf(b),
    ensures
        buf_wf(spec_backspace(b)),
{
    let cur = b.lines[b.line as int];
    if b.col > 0 {
        let row = cur.remove(b.col as int - 1);
        lemma_remove_line_ok(cur, b.col as int - 1);
        let t = spec_backspace(b).lines;
        assert forall|i: int| 0 <= i < t.len() implies line_ok(#[trigger] t[i]) by {
            if i != b.line as int {
                assert(t[i] == b.lines[i]);
            }
        }
    } else if b.line > 0 {
        let prev = b.lines[b.line as int - 1];
        let merged = prev + cur;
        assert(line_ok(merged)) by {
            if merged.contains('\n') {
                let j = choose|j: int| 0 <= j < merged.len() && merged[j] == '\n';
                if j < prev.len() {
                    assert(prev.contains('\n'));
                } else {
                    assert(merged[j] == cur[j - prev.len()]);
                    assert(cur.contains('\n'));
                }
                assert(false);
            }
        }
        let t = spec_backspace(b).lines;
        assert forall|i: int| 0 <= i < t.len() implies line_ok(#[trigger] t[i]) by {
            if i < b.line as int - 1 {
                assert(t[i] == b.lines[i]);
            } else if i > b.line as int - 1 {
                assert(t[i] == b.lines[i + 1]);
            }
        }
    }
}

pub proof fn lemma_delete_wf(b: BufView)
    requires
        buf_wf(b),
    ensures
        buf_wf(spec_delete(b)),
{
    let cur = b.lines[b.line as int];
    if b.col < cur.len() {
        let row = cur.remove(b.col as int);
        lemma_remove_line_ok(cur, b.col as int);
        let t = spec_delete(b).lines;
        assert forall|i: int| 0 <= i < t.len() implies line_ok(#[trigger] t[i]) by {
            if i != b.line as int {
                assert(t[i] == b.lines[i]);
            }
        }
    } else if b.line + 1 < b.lines.len() {
        let next = b.lines[b.line as int + 1];
        let merged = cur + next;
        assert(line_ok(merged)) by {
            if merged.contains('\n') {
                let j = choose|j: int| 0 <= j < merged.len() && merged[j] == '\n';
                if j < cur.len() {
                    assert(cur.contains('\n'));
                } else {
                    assert(merged[j] == next[j - cur.len()]);
                    assert(next.contains('\n'));
                }
                assert(false);
            }
        }
        let t = spec_delete(b).lines;
        assert forall|i: int| 0 <= i < t.len() implies line_ok(#[trigger] t[i]) by {
            if i < b.line as int {
                assert(t[i] == b.lines[i]);
            } else if i > b.line as int {
                assert(t[i] == b.lines[i + 1]);
            }
        }
    }
}

pub proof fn lemma_move_wf(b: BufView, m: Motion)
    requires
        buf_wf(b),
    ensures
        buf_wf(spec_move(b, m)),
{
}

/// Every edit action keeps the buffer well-formed.
pub proof fn lemma_apply_edit_wf(b: BufView, a: EditAction)
    requires
        buf_wf(b),
    ensures
        buf_wf(apply_edit(b, a)),
{
    match a {
        EditAction::Insert(c) => lemma_insert_char_wf(b, c),
        EditAction::Paste(s) => lemma_paste_wf(b, s@),
        EditAction::Enter => lemma_enter_wf(b),
        EditAction::Backspace => lemma_backspace_wf(b),
        EditAction::Delete => lemma_delete_wf(b),
        EditAction::Move(m) => lemma_move_wf(b, m),
    }
}

/// The in-memory text buffer with its cursor.
pub struct Buffer {
    lines: Vec<Vec<char>>,
    line: usize,
    col: usize,
}

impl View for Buffer {
    type V = BufView;

    closed spec fn view(&self) -> BufView {
        BufView { lines: self.lines.deep_view(), line: self.line as nat, col: self.col as nat }
    }
}

/// Helper spec: the line sequence a text splits into, as a buffer view.
pub open spec fn buf_of_text(s: Seq<char>) -> BufView {
    BufView { lines: split_lines(s), line: 0, col: 0 }
}

impl Buffer {
    /// A new, empty buffer.
    pub fn new() -> (r: Buffer)
        ensures
            r@ == empty_buf(),
            buf_wf(r@),
    {
        let mut lines: Vec<Vec<char>> = Vec::new();
        lines.push(Vec::new());
        let r = Buffer { lines, line: 0, col: 0 };
        proof {
            assert(r@.lines =~~= empty_buf().lines);
            assert(!Seq::<char>::empty().contains('\n'));
        }
        r
    }

    /// A buffer holding the given text, cursor at the start.
    pub fn from_text(s: &str) -> (r: Buffer)
        ensures
            r@ == buf_of_text(s@),
            buf_wf(r@),
    {
        let cs = str_to_chars(s);
        let n = cs.len();
        let mut done: Vec<Vec<char>> = Vec::new();
        let mut cur: Vec<char> = Vec::new();
        let mut i: usize = 0;
        proof {
            assert(s@.skip(0) =~= s@);
            assert(prepend_first(cur@, split_lines(s@)) =~~= split_lines(s@)) by {
                lemma_split_lines_len(s@);
            }
        }
        while i < n
            invariant
                i <= n,
                n == cs@.len(),
                cs@ == s@,
                split_lines(s@) =~~= done.deep_view() + prepend_first(
                    cur@,
                    split_lines(s@.skip(i as int)),
                ),
            decreases n - i,
        {
            let c = cs[i];
            proof {
                let t = s@.skip(i as int);
                assert(t[0] == c);
                assert(t.skip(1) =~= s@.skip(i as int + 1));
                lemma_split_lines_len(s@.skip(i as int + 1));
            }
            if c == '\n' {
                let ghost old_done = done.deep_view();
                let ghost old_cur = cur@;
                done.push(cur);
                cur = Vec::new();
                proof {
                    assert(done.deep_view() =~~= old_done.push(old_cur));
                    let r = split_lines(s@.skip(i as int + 1));
                    assert(prepend_first(old_cur, split_lines(s@.skip(i as int))) =~~= seq![
                        old_cur,
                    ] + r);
                    assert(prepend_first(cur@, r) =~~= r);
                    assert(split_lines(s@) =~~= done.deep_view() + prepend_first(
                        cur@,
                        split_lines(s@.skip(i as int + 1)),
                    ));
                }
            } else {
                let ghost old_cur = cur@;
                cur.push(c);
                proof {
                    let r = split_lines(s@.skip(i as int + 1));
                    assert(prepend_first(old_cur, split_lines(s@.skip(i as int))) =~~= prepend_first(
                        cur@,
                        r,
                    ));
                    assert(split_lines(s@) =~~= done.deep_view() + prepend_first(
                        cur@,
                        split_lines(s@.skip(i as int + 1)),
                    ));
                }
            }
            i = i + 1;
        }
        proof {
            assert(s@.skip(n as int) =~= Seq::<char>::empty());
            assert(prepend_first(cur@, split_lines(Seq::<char>::empty())) =~~= seq![cur@]);
        }
        let ghost old_done = done.deep_view();
        let ghost cur_view = cur@;
        done.push(cur);
        let r = Buffer { lines: done, line: 0, col: 0 };
        proof {
            assert(r@.lines =~~= old_done.push(cur_view));
            assert(old_done.push(cur_view) =~~= old_done + seq![cur_view]);
            assert(r@.lines =~~= split_lines(s@));
            lemma_split_lines_ok(s@);
        }
        r
    }

    /// The buffer's text: its lines joined with newlines.
    pub fn text(&self) -> (r: String)
        requires
            buf_wf(self@),
        ensures
            r@ == join_lines(self@.lines),
    {
        let n = self.lines.len();
        let row0: &Vec<char> = &self.lines[0];
        let mut acc: Vec<char> = chars_range(row0, 0, row0.len());
        proof {
            assert(acc@ =~= self@.lines[0]);
            assert(self@.lines.take(1) =~= seq![self@.lines[0]]);
            assert(join_lines(self@.lines.take(1)) == self@.lines[0]);
        }
        let mut i: usize = 1;
        while i < n
            invariant
                1 <= i <= n,
                n == self.lines@.len(),
                buf_wf(self@),
                acc@ == join_lines(self@.lines.take(i as int)),
            decreases n - i,
        {
            acc.push('\n');
            let row: &Vec<char> = &self.lines[i];
            let mut part = chars_range(row, 0, row.len());
            proof {
                assert(part@ =~= self@.lines[i as int]);
            }
            acc.append(&mut part);
            proof {
                lemma_join_push(self@.lines.take(i as int), self@.lines[i as int]);
                assert(self@.lines.take(i as int).push(self@.lines[i as int]) =~~= self@.lines.take(
                    i as int + 1,
                ));
                assert(acc@ =~= join_lines(self@.lines.take(i as int)) + seq!['\n']
                    + self@.lines[i as int]);
            }
            i = i + 1;
        }
        proof {
            assert(self@.lines.take(n as int) =~~= self@.lines);
        }
        chars_to_string(&acc)
    }

    /// The cursor position as (line, column), both starting at zero.
    pub fn cursor_position(&self) -> (r: (usize, usize))
        ensures
            r.0 as nat == self@.line,
            r.1 as nat == self@.col,
    {
        (self.line, self.col)
    }

    fn row_len(&self, i: usize) -> (r: usize)
        requires
            i < self@.lines.len(),
        ensures
            r == self@.lines[i as int].len(),
    {
        let row: &Vec<char> = &self.lines[i];
        row.len()
    }

    fn enter(&mut self)
        requires
            buf_wf(old(self)@),
        ensures
            final(self)@ == spec_enter(old(self)@),
    {
        // a Vec's length is a usize, which bounds self.line + 1 below
        let _line_count = self.lines.len();
        let mut row = self.lines.remove(self.line);
        let rest = row.split_off(self.col);
        self.lines.insert(self.line, row);
        self.lines.insert(self.line + 1, rest);
        self.line = self.line + 1;
        self.col = 0;
        proof {
            assert(self@.lines =~~= spec_enter(old(self)@).lines);
        }
    }

    fn insert_plain(&mut self, c: char)
        requires
            buf_wf(old(self)@),
            c != '\n',
        ensures
            final(self)@ == spec_insert_char(old(self)@, c),
    {
        let mut row = self.lines.remove(self.line);
        row.insert(self.col, c);
        // the grown row's length is a usize, which bounds self.col + 1 below
        let _row_len = row.len();
        self.lines.insert(self.line, row);
        self.col = self.col + 1;
        proof {
            assert(self@.lines =~~= spec_insert_char(old(self)@, c).lines);
        }
    }

    fn put_char(&mut self, c: char)
        requires
            buf_wf(old(self)@),
        ensures
            final(self)@ == spec_insert_char(old(self)@, c),
    {
        if c == '\n' {
            self.enter();
        } else {
            self.insert_plain(c);
        }
    }

    fn backspace(&mut self)
        requires
            buf_wf(old(self)@),
        ensures
            final(self)@ == spec_backspace(old(self)@),
    {
        if self.col > 0 {
            let mut row = self.lines.remove(self.line);
            row.remove(self.col - 1);
            self.lines.insert(self.line, row);
            self.col = self.col - 1;
            proof {
                assert(self@.lines =~~= spec_backspace(old(self)@).lines);
            }
        } else if self.line > 0 {
            let mut cur = self.lines.remove(self.line);
            let mut prev = self.lines.remove(self.line - 1);
            let plen = prev.len();
            prev.append(&mut cur);
            self.lines.insert(self.line - 1, prev);
            self.line = self.line - 1;
            self.col = plen;
            proof {
                assert(self@.lines =~~= spec_backspace(old(self)@).lines);
            }
        }
    }

    fn delete(&mut self)
        requires
            buf_wf(old(self)@),
        ensures
            final(self)@ == spec_delete(old(self)@),
    {
        let n = self.lines.len();
        let rl = self.row_len(self.line);
        if self.col < rl {
            let mut row = self.lines.remove(self.line);
            row.remove(self.col);
            self.lines.insert(self.line, row);
            proof {
                assert(self@.lines =~~= spec_delete(old(self)@).lines);
            }
        } else if self.line + 1 < n {
            let mut next = self.lines.remove(self.line + 1);
            let mut cur = self.lines.remove(self.line);
            cur.append(&mut next);
            self.lines.insert(self.line, cur);
            proof {
                assert(self@.lines =~~= spec_delete(old(self)@).lines);
            }
        }
    }

    fn move_cursor(&mut self, m: Motion)
        requires
            buf_wf(old(self)@),
        ensures
            final(self)@ == spec_move(old(self)@, m),
    {
        let n = self.lines.len();
        match m {
            Motion::Left => {
                if self.col > 0 {
                    self.col = self.col - 1;
                } else if self.line > 0 {
                    self.line = self.line - 1;
                    self.col = self.row_len(self.line);
                }
            },
            Motion::Right => {
                let rl = self.row_len(self.line);
                if self.col < rl {
                    self.col = self.col + 1;
                } else if self.line + 1 < n {
                    self.line = self.line + 1;
                    self.col = 0;
                }
            },
            Motion::Up => {
                if self.line > 0 {
                    self.line = self.line - 1;
                    let rl = self.row_len(self.line);
                    if self.col > rl {
                        self.col = rl;
                    }
                }
            },
            Motion::Down => {
                if self.line + 1 < n {
                    self.line = self.line + 1;
                    let rl = self.row_len(self.line);
                    if self.col > rl {
                        self.col = rl;
                    }
                }
            },
            Motion::Home => {
                self.col = 0;
            },
            Motion::End => {
                self.col = self.row_len(self.line);
            },
            Motion::DocumentStart => {
                self.line = 0;
                self.col = 0;
            },
            Motion::DocumentEnd => {
                self.line = n - 1;
                self.col = self.row_len(self.line);
            },
        }
    }

    /// Apply one edit action to the buffer.
    pub fn apply(&mut self, a: EditAction)
        requires
            buf_wf(old(self)@),
        ensures
            final(self)@ == apply_edit(old(self)@, a),
            buf_wf(final(self)@),
    {
        let ghost b0 = old(self)@;
        match a {
            EditAction::Insert(c) => {
                self.put_char(c);
                proof {
                    lemma_insert_char_wf(b0, c);
                }
            },
            EditAction::Paste(s) => {
                let cs = str_to_chars(s.as_str());
                let n = cs.len();
                let mut i: usize = 0;
                proof {
                    assert(s@.skip(0) =~= s@);
                }
                while i < n
                    invariant
                        i <= n,
                        n == cs@.len(),
                        cs@ == s@,
                        buf_wf(self@),
                        spec_paste(b0, s@) == spec_paste(self@, s@.skip(i as int)),
                    decreases n - i,
                {
                    let c = cs[i];
                    proof {
                        assert(s@.skip(i as int)[0] == c);
                        assert(s@.skip(i as int).skip(1) =~= s@.skip(i as int + 1));
                        lemma_insert_char_wf(self@, c);
                    }
                    self.put_char(c);
                    i = i + 1;
                }
                proof {
                    assert(s@.skip(n as int) =~= Seq::<char>::empty());
                }
            },
            EditAction::Enter => {
                self.enter();
                proof {
                    lemma_enter_wf(b0);
                }
            },
            EditAction::Backspace => {
                self.backspace();
                proof {
                    lemma_backspace_wf(b0);
                }
            },
            EditAction::Delete => {
                self.delete();
                proof {
                    lemma_delete_wf(b0);
                }
            },
            EditAction::Move(m) => {
                self.move_cursor(m);
                proof {
                    lemma_move_wf(b0, m);
                }
            },
        }
    }
}

/// The first element of a line sequence with a prefix glued on, used to
/// relate a partial scan to the split of the whole text.
spec fn prepend_first(p: Seq<char>, ls: Seq<Seq<char>>) -> Seq<Seq<char>> {
    if ls.len() == 0 {
        seq![p]
    } else {
        seq![p + ls[0]] + ls.skip(1)
    }
}

} // verus!
