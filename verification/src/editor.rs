//! The code editor held by a focused "code" parameter row: a character buffer with a
//! cursor, edited by the emacs-flavoured key table of the parameter panel.
use vstd::prelude::*;
use crate::text::{to_chars, chars_to_string, split_ranges, ranges_of_split, lemma_ranges_exist};
use crate::cursor::{lemma_index_round_trip, lemma_cursor_line_bounds};
use crate::cursor::{
    lines_of, cursor_line_col, index_of_line_col, lemma_line_col_in_lines, line_col_of_chars,
    index_of_chars, line_end_of_chars,
};

verus! {

/// A key delivered to the editor.
pub enum EditorKey {
    Backspace,
    Delete,
    Enter,
    Escape,
    ArrowLeft,
    ArrowRight,
    ArrowUp,
    ArrowDown,
    Home,
    End,
    /// Text typed (or, with control held, a command letter).
    Character(String),
    Other,
}

/// The control-key commands of the editor.
#[derive(PartialEq, Eq, Clone, Copy, Structural)]
pub enum CtrlCommand {
    Forward,
    Backward,
    PreviousLine,
    NextLine,
    LineStart,
    LineEnd,
    DeleteForward,
    DeleteBackward,
    KillLine,
}

/// What a key did: whether the buffer changed, whether the key was consumed, and
/// whether it asked to leave the editor.
#[derive(PartialEq, Eq, Clone, Copy, Structural)]
pub struct KeyOutcome {
    pub changed: bool,
    pub handled: bool,
    pub unfocus: bool,
}

/// The editor's state: the buffer and the cursor, a character index into it.
pub struct CodeEditor {
    pub buffer: Vec<char>,
    pub cursor_idx: usize,
}

/// The command a control chord names: one letter, in either case (the lowercase of the
/// typed text, so the Kelvin sign, which lowercases to `k`, names the kill too).
pub open spec fn ctrl_command_spec(s: Seq<char>) -> Option<CtrlCommand> {
    if s.len() != 1 {
        None
    } else {
        let c = s[0];
        if c == 'f' || c == 'F' { Some(CtrlCommand::Forward) }
        else if c == 'b' || c == 'B' { Some(CtrlCommand::Backward) }
        else if c == 'p' || c == 'P' { Some(CtrlCommand::PreviousLine) }
        else if c == 'n' || c == 'N' { Some(CtrlCommand::NextLine) }
        else if c == 'a' || c == 'A' { Some(CtrlCommand::LineStart) }
        else if c == 'e' || c == 'E' { Some(CtrlCommand::LineEnd) }
        else if c == 'd' || c == 'D' { Some(CtrlCommand::DeleteForward) }
        else if c == 'h' || c == 'H' { Some(CtrlCommand::DeleteBackward) }
        else if c == 'k' || c == 'K' || c == '\u{212a}' { Some(CtrlCommand::KillLine) }
        else { None }
    }
}

/// The cursor one line up, same column (clamped); unchanged on the first line.
pub open spec fn cursor_up(b: Seq<char>, c: int) -> int {
    let (line, col) = cursor_line_col(b, c);
    if line > 0 { index_of_line_col(b, line - 1, col as int) } else { c }
}

/// The cursor one line down, same column (clamped); unchanged on the last line.
pub open spec fn cursor_down(b: Seq<char>, c: int) -> int {
    let (line, col) = cursor_line_col(b, c);
    if line + 1 < lines_of(b).len() { index_of_line_col(b, line + 1 as int, col as int) } else { c }
}

/// The start of the cursor's line.
pub open spec fn line_start_of(b: Seq<char>, c: int) -> int {
    index_of_line_col(b, cursor_line_col(b, c).0 as int, 0)
}

/// The end of the cursor's line.
pub open spec fn line_end_of(b: Seq<char>, c: int) -> int {
    let line = cursor_line_col(b, c).0 as int;
    index_of_line_col(b, line, lines_of(b)[line].len() as int)
}

/// The buffer after killing from the cursor: the newline under the cursor, or else the
/// rest of the cursor's line. Nothing happens at or past the end of the buffer.
pub open spec fn kill_line(b: Seq<char>, c: int) -> Seq<char> {
    if c < b.len() {
        let end = if b[c] == '\n' { c + 1 } else { line_end_of(b, c) };
        b.take(c) + b.skip(end)
    } else {
        b
    }
}

/// The outcome of a key on buffer `b` with the cursor at `c`: the new buffer, the
/// new cursor, and what the key did.
pub open spec fn key_result(b: Seq<char>, c: int, key: EditorKey, ctrl: bool) -> (Seq<char>, int, KeyOutcome) {
    let done = |changed: bool| KeyOutcome { changed, handled: true, unfocus: false };
    let left = if c > 0 { c - 1 } else { 0 };
    let right = if c < b.len() { c + 1 } else { c };
    let del_back = if c > 0 { (b.remove(c - 1), c - 1, done(true)) } else { (b, c, done(false)) };
    let del_fwd = if c < b.len() { (b.remove(c), c, done(true)) } else { (b, c, done(false)) };
    match key {
        EditorKey::Backspace => del_back,
        EditorKey::Delete => del_fwd,
        EditorKey::Enter => (b.take(c) + seq!['\n'] + b.skip(c), c + 1, done(true)),
        EditorKey::Escape => (b, c, KeyOutcome { changed: false, handled: true, unfocus: true }),
        EditorKey::ArrowLeft => (b, left, done(false)),
        EditorKey::ArrowRight => (b, right, done(false)),
        EditorKey::ArrowUp => (b, cursor_up(b, c), done(false)),
        EditorKey::ArrowDown => (b, cursor_down(b, c), done(false)),
        EditorKey::Home => (b, line_start_of(b, c), done(false)),
        EditorKey::End => (b, line_end_of(b, c), done(false)),
        EditorKey::Character(s) => if !ctrl {
            (b.take(c) + s@ + b.skip(c), c + s@.len(), done(true))
        } else {
            match ctrl_command_spec(s@) {
                Some(CtrlCommand::Forward) => (b, right, done(false)),
                Some(CtrlCommand::Backward) => (b, left, done(false)),
                Some(CtrlCommand::PreviousLine) => (b, cursor_up(b, c), done(false)),
                Some(CtrlCommand::NextLine) => (b, cursor_down(b, c), done(false)),
                Some(CtrlCommand::LineStart) => (b, line_start_of(b, c), done(false)),
                Some(CtrlCommand::LineEnd) => (b, line_end_of(b, c), done(false)),
                Some(CtrlCommand::DeleteForward) => del_fwd,
                Some(CtrlCommand::DeleteBackward) => del_back,
                Some(CtrlCommand::KillLine) => (kill_line(b, c), c, done(c < b.len())),
                None => (b, c, KeyOutcome { changed: false, handled: false, unfocus: false }),
            }
        },
        EditorKey::Other => (b, c, KeyOutcome { changed: false, handled: false, unfocus: false }),
    }
}

/// Typing a single character and then pressing Backspace gives back the buffer and the
/// cursor as they were.
pub proof fn lemma_type_then_backspace(b: Seq<char>, c: int, s: String)
    requires
        0 <= c <= b.len(),
        s@.len() == 1,
    ensures
        ({
            let (b1, c1, o1) = key_result(b, c, EditorKey::Character(s), false);
            let (b2, c2, o2) = key_result(b1, c1, EditorKey::Backspace, false);
            &&& o1.changed && o2.changed
            &&& b2 == b
            &&& c2 == c
        }),
{
    let b1 = b.take(c) + s@ + b.skip(c);
    assert(b1.remove(c) =~= b);
}

/// A newline typed with Enter is taken back by Backspace: buffer and cursor return to
/// what they were.
pub proof fn lemma_enter_then_backspace(b: Seq<char>, c: int)
    requires
        0 <= c <= b.len(),
    ensures
        ({
            let (b1, c1, _) = key_result(b, c, EditorKey::Enter, false);
            let (b2, c2, _) = key_result(b1, c1, EditorKey::Backspace, false);
            b2 == b && c2 == c
        }),
{
    let b1 = b.take(c) + seq!['\n'] + b.skip(c);
    assert(b1.remove(c) =~= b);
}

/// Control-F then control-B, away from the buffer's end, leaves the cursor in place;
/// so does control-B then control-F away from its start.
pub proof fn lemma_forward_backward(b: Seq<char>, c: int, f: String, bk: String)
    requires
        0 <= c <= b.len(),
        f@ == seq!['f'],
        bk@ == seq!['b'],
    ensures
        c < b.len() ==> ({
            let (b1, c1, _) = key_result(b, c, EditorKey::Character(f), true);
            let (b2, c2, _) = key_result(b1, c1, EditorKey::Character(bk), true);
            b2 == b && c2 == c
        }),
        c > 0 ==> ({
            let (b1, c1, _) = key_result(b, c, EditorKey::Character(bk), true);
            let (b2, c2, _) = key_result(b1, c1, EditorKey::Character(f), true);
            b2 == b && c2 == c
        }),
{
}

/// The command a control chord names, if any.
pub fn ctrl_command(s: &str) -> (r: Option<CtrlCommand>)
    ensures
        r == ctrl_command_spec(s@),
{
    let v = to_chars(s);
    if v.len() != 1 {
        return None;
    }
    let c = v[0];
    if c == 'f' || c == 'F' { Some(CtrlCommand::Forward) }
    else if c == 'b' || c == 'B' { Some(CtrlCommand::Backward) }
    else if c == 'p' || c == 'P' { Some(CtrlCommand::PreviousLine) }
    else if c == 'n' || c == 'N' { Some(CtrlCommand::NextLine) }
    else if c == 'a' || c == 'A' { Some(CtrlCommand::LineStart) }
    else if c == 'e' || c == 'E' { Some(CtrlCommand::LineEnd) }
    else if c == 'd' || c == 'D' { Some(CtrlCommand::DeleteForward) }
    else if c == 'h' || c == 'H' { Some(CtrlCommand::DeleteBackward) }
    else if c == 'k' || c == 'K' || c == '\u{212a}' { Some(CtrlCommand::KillLine) }
    else { None }
}

impl CodeEditor {
    /// The cursor lies within the buffer (at most just past its end).
    pub open spec fn wf(&self) -> bool {
        self.cursor_idx <= self.buffer@.len()
    }

    /// An editor on `text` with the cursor at its start.
    pub fn new(text: &str) -> (e: CodeEditor)
        ensures
            e.buffer@ == text@,
            e.cursor_idx == 0,
            e.wf(),
    {
        CodeEditor { buffer: to_chars(text), cursor_idx: 0 }
    }

    /// The buffer as a string.
    pub fn buffer_string(&self) -> (s: String)
        ensures
            s@ == self.buffer@,
    {
        chars_to_string(&self.buffer)
    }

    /// Inserts `text` at the cursor and moves the cursor past it.
    pub fn insert_text(&mut self, text: &str)
        requires
            old(self).wf(),
            old(self).buffer@.len() + text@.len() <= usize::MAX,
        ensures
            final(self).wf(),
            final(self).buffer@ == old(self).buffer@.take(old(self).cursor_idx as int) + text@
                + old(self).buffer@.skip(old(self).cursor_idx as int),
            final(self).cursor_idx == old(self).cursor_idx + text@.len(),
    {
        let ins = to_chars(text);
        let ghost b0 = self.buffer@;
        let ghost c0 = self.cursor_idx as int;
        let mut i: usize = 0;
        while i < ins.len()
            invariant
                i <= ins.len(),
                ins@ == text@,
                b0.len() + ins@.len() <= usize::MAX,
                0 <= c0 <= b0.len(),
                self.cursor_idx == c0 + i,
                self.buffer@ == b0.take(c0) + ins@.take(i as int) + b0.skip(c0),
            decreases ins.len() - i,
        {
            let c = ins[i];
            self.buffer.insert(self.cursor_idx, c);
            proof {
                assert(self.buffer@ =~= b0.take(c0) + ins@.take(i + 1) + b0.skip(c0));
            }
            self.cursor_idx = self.cursor_idx + 1;
            i = i + 1;
        }
        proof {
            assert(ins@.take(i as int) =~= ins@);
        }
    }

    /// Deletes the character before the cursor, reporting whether there was one.
    pub fn delete_backwards(&mut self) -> (changed: bool)
        requires
            old(self).wf(),
        ensures
            final(self).wf(),
            changed == (old(self).cursor_idx > 0),
            changed ==> final(self).buffer@ == old(self).buffer@.remove(old(self).cursor_idx - 1)
                && final(self).cursor_idx == old(self).cursor_idx - 1,
            !changed ==> *final(self) == *old(self),
    {
        if self.cursor_idx > 0 {
            self.buffer.remove(self.cursor_idx - 1);
            self.cursor_idx = self.cursor_idx - 1;
            true
        } else {
            false
        }
    }

    /// Deletes the character under the cursor, reporting whether there was one.
    pub fn delete_forwards(&mut self) -> (changed: bool)
        requires
            old(self).wf(),
        ensures
            final(self).wf(),
            changed == (old(self).cursor_idx < old(self).buffer@.len()),
            changed ==> final(self).buffer@ == old(self).buffer@.remove(old(self).cursor_idx as int),
            final(self).cursor_idx == old(self).cursor_idx,
            !changed ==> final(self).buffer@ == old(self).buffer@,
    {
        if self.cursor_idx < self.buffer.len() {
            self.buffer.remove(self.cursor_idx);
            true
        } else {
            false
        }
    }

    /// Moves the cursor one character left, stopping at the start.
    pub fn move_cursor_left(&mut self)
        requires
            old(self).wf(),
        ensures
            final(self).wf(),
            final(self).buffer@ == old(self).buffer@,
            final(self).cursor_idx == if old(self).cursor_idx > 0 { old(self).cursor_idx - 1 } else { 0 },
    {
        if self.cursor_idx > 0 {
            self.cursor_idx = self.cursor_idx - 1;
        }
    }

    /// Moves the cursor one character right, stopping at the end.
    pub fn move_cursor_right(&mut self)
        requires
            old(self).wf(),
        ensures
            final(self).wf(),
            final(self).buffer@ == old(self).buffer@,
            final(self).cursor_idx == if old(self).cursor_idx < old(self).buffer@.len() {
                old(self).cursor_idx + 1
            } else {
                old(self).cursor_idx as int
            },
    {
        if self.cursor_idx < self.buffer.len() {
            self.cursor_idx = self.cursor_idx + 1;
        }
    }

    /// Moves the cursor to the same column of the previous line.
    pub fn move_cursor_up(&mut self)
        requires
            old(self).wf(),
        ensures
            final(self).wf(),
            final(self).buffer@ == old(self).buffer@,
            final(self).cursor_idx == cursor_up(old(self).buffer@, old(self).cursor_idx as int),
    {
        let (line, col) = line_col_of_chars(&self.buffer, self.cursor_idx);
        if line > 0 {
            self.cursor_idx = index_of_chars(&self.buffer, line - 1, col);
        }
    }

    /// Moves the cursor to the same column of the next line.
    pub fn move_cursor_down(&mut self)
        requires
            old(self).wf(),
        ensures
            final(self).wf(),
            final(self).buffer@ == old(self).buffer@,
            final(self).cursor_idx == cursor_down(old(self).buffer@, old(self).cursor_idx as int),
    {
        let (line, col) = line_col_of_chars(&self.buffer, self.cursor_idx);
        let total_lines = split_ranges(&self.buffer, '\n').len();
        if line < total_lines - 1 {
            self.cursor_idx = index_of_chars(&self.buffer, line + 1, col);
        }
    }

    /// Moves the cursor to the start of its line.
    pub fn move_to_line_start(&mut self)
        requires
            old(self).wf(),
        ensures
            final(self).wf(),
            final(self).buffer@ == old(self).buffer@,
            final(self).cursor_idx == line_start_of(old(self).buffer@, old(self).cursor_idx as int),
    {
        let (line, _) = line_col_of_chars(&self.buffer, self.cursor_idx);
        self.cursor_idx = index_of_chars(&self.buffer, line, 0);
    }

    /// Moves the cursor to the end of its line.
    pub fn move_to_line_end(&mut self)
        requires
            old(self).wf(),
        ensures
            final(self).wf(),
            final(self).buffer@ == old(self).buffer@,
            final(self).cursor_idx == line_end_of(old(self).buffer@, old(self).cursor_idx as int),
    {
        proof {
            lemma_line_col_in_lines(self.buffer@, self.cursor_idx as int);
            assert(self.buffer@.take(self.cursor_idx as int) == self.buffer@.take(
                if (self.cursor_idx as int) < self.buffer@.len() { self.cursor_idx as int } else { self.buffer@.len() as int }));
        }
        self.cursor_idx = line_end_of_chars(&self.buffer, self.cursor_idx);
    }

    /// Kills from the cursor: the newline under it, or else the rest of its line. The
    /// cursor stays; reports whether anything was removed.
    pub fn kill_to_line_end(&mut self) -> (changed: bool)
        requires
            old(self).wf(),
        ensures
            final(self).wf(),
            final(self).buffer@ == kill_line(old(self).buffer@, old(self).cursor_idx as int),
            final(self).cursor_idx == old(self).cursor_idx,
            changed == (old(self).cursor_idx < old(self).buffer@.len()),
    {
        let cur = self.cursor_idx;
        if cur >= self.buffer.len() {
            return false;
        }
        let end = if self.buffer[cur] == '\n' {
            cur + 1
        } else {
            proof {
                lemma_line_col_in_lines(self.buffer@, cur as int);
                assert(self.buffer@.take(cur as int) == self.buffer@.take(
                    if (cur as int) < self.buffer@.len() { cur as int } else { self.buffer@.len() as int }));
            }
            line_end_of_chars(&self.buffer, cur)
        };
        let ghost b = self.buffer@;
        let mut out: Vec<char> = Vec::new();
        let mut i: usize = 0;
        while i < cur
            invariant
                i <= cur,
                cur < b.len(),
                self.buffer@ == b,
                out@ == b.take(i as int),
            decreases cur - i,
        {
            out.push(self.buffer[i]);
            proof {
                assert(b.take(i + 1) =~= b.take(i as int).push(b[i as int]));
            }
            i = i + 1;
        }
        let mut j: usize = end;
        while j < self.buffer.len()
            invariant
                end <= j <= b.len(),
                self.buffer@ == b,
                out@ == b.take(cur as int) + b.subrange(end as int, j as int),
            decreases b.len() - j,
        {
            out.push(self.buffer[j]);
            proof {
                assert(b.subrange(end as int, j + 1) =~= b.subrange(end as int, j as int).push(b[j as int]));
            }
            j = j + 1;
        }
        proof {
            assert(b.subrange(end as int, b.len() as int) =~= b.skip(end as int));
        }
        self.buffer = out;
        true
    }

    /// Applies one key to the editor, `ctrl` telling whether the control modifier is
    /// held: the panel's editing table (arrows, Home/End, Enter, Backspace/Delete,
    /// Escape to leave, typed text; with control: f b p n a e d h k).
    pub fn handle_key(&mut self, key: &EditorKey, ctrl: bool) -> (out: KeyOutcome)
        requires
            old(self).wf(),
            old(self).buffer@.len() + 1 <= usize::MAX,
            key matches EditorKey::Character(s) ==> old(self).buffer@.len() + s@.len() <= usize::MAX,
        ensures
            final(self).wf(),
            (final(self).buffer@, final(self).cursor_idx as int, out)
                == key_result(old(self).buffer@, old(self).cursor_idx as int, *key, ctrl),
    {
        let done = |changed: bool| -> (o: KeyOutcome)
            ensures o == (KeyOutcome { changed, handled: true, unfocus: false }),
            { KeyOutcome { changed, handled: true, unfocus: false } };
        match key {
            EditorKey::Backspace => {
                let ch = self.delete_backwards();
                done(ch)
            }
            EditorKey::Delete => {
                let ch = self.delete_forwards();
                done(ch)
            }
            EditorKey::Enter => {
                proof { reveal_strlit("\n"); }
                self.insert_text("\n");
                done(true)
            }
            EditorKey::Escape => KeyOutcome { changed: false, handled: true, unfocus: true },
            EditorKey::ArrowLeft => {
                self.move_cursor_left();
                done(false)
            }
            EditorKey::ArrowRight => {
                self.move_cursor_right();
                done(false)
            }
            EditorKey::ArrowUp => {
                self.move_cursor_up();
                done(false)
            }
            EditorKey::ArrowDown => {
                self.move_cursor_down();
                done(false)
            }
            EditorKey::Home => {
                self.move_to_line_start();
                done(false)
            }
            EditorKey::End => {
                self.move_to_line_end();
                done(false)
            }
            EditorKey::Character(s) => {
                if !ctrl {
                    self.insert_text(s.as_str());
                    return done(true);
                }
                match ctrl_command(s.as_str()) {
                    Some(CtrlCommand::Forward) => {
                        self.move_cursor_right();
                        done(false)
                    }
                    Some(CtrlCommand::Backward) => {
                        self.move_cursor_left();
                        done(false)
                    }
                    Some(CtrlCommand::PreviousLine) => {
                        self.move_cursor_up();
                        done(false)
                    }
                    Some(CtrlCommand::NextLine) => {
                        self.move_cursor_down();
                        done(false)
                    }
                    Some(CtrlCommand::LineStart) => {
                        self.move_to_line_start();
                        done(false)
                    }
                    Some(CtrlCommand::LineEnd) => {
                        self.move_to_line_end();
                        done(false)
                    }
                    Some(CtrlCommand::DeleteForward) => {
                        let ch = self.delete_forwards();
                        done(ch)
                    }
                    Some(CtrlCommand::DeleteBackward) => {
                        let ch = self.delete_backwards();
                        done(ch)
                    }
                    Some(CtrlCommand::KillLine) => {
                        let ch = self.kill_to_line_end();
                        done(ch)
                    }
                    None => KeyOutcome { changed: false, handled: false, unfocus: false },
                }
            }
            EditorKey::Other => KeyOutcome { changed: false, handled: false, unfocus: false },
        }
    }
}


/// Where a vertical move to line `target` lands, the cursor being at column `col`: that
/// column, or the line's end when the line is shorter.
pub open spec fn landing(lines: Seq<Seq<char>>, target: int, col: nat) -> (nat, nat) {
    (target as nat, if col <= lines[target].len() { col } else { lines[target].len() })
}

/// Moving down (ArrowDown, or Ctrl-N in either case) puts the cursor on the next line,
/// at its column or at that line's end when the line is shorter; on the last line the
/// cursor stays. Moving up (ArrowUp, or Ctrl-P) does the same toward the line above; on
/// the first line the cursor stays. None of these touches the buffer or leaves the
/// editor, and each is taken.
pub proof fn lemma_vertical_moves(b: Seq<char>, c: int, ctrl: bool, s: String)
    requires
        0 <= c <= b.len(),
    ensures
        ({
            let (l, col) = cursor_line_col(b, c);
            let lines = lines_of(b);
            let down = if l + 1 < lines.len() { landing(lines, (l + 1) as int, col) } else { (l, col) };
            let up = if l > 0 { landing(lines, l - 1, col) } else { (l, col) };
            let moved = KeyOutcome { changed: false, handled: true, unfocus: false };
            let (bd, cd, od) = key_result(b, c, EditorKey::ArrowDown, ctrl);
            let (bu, cu, ou) = key_result(b, c, EditorKey::ArrowUp, ctrl);
            let (bn, cn, on) = key_result(b, c, EditorKey::Character(s), true);
            &&& bd == b && od == moved && cursor_line_col(b, cd) == down
            &&& bu == b && ou == moved && cursor_line_col(b, cu) == up
            &&& (s@ == seq!['n'] || s@ == seq!['N']) ==> bn == b && on == moved && cursor_line_col(b, cn) == down
            &&& (s@ == seq!['p'] || s@ == seq!['P']) ==> bn == b && on == moved && cursor_line_col(b, cn) == up
        }),
{
    lemma_line_col_in_lines(b, c);
    assert(b.take(c) == b.take(if c < b.len() { c } else { b.len() as int }));
    let (l, col) = cursor_line_col(b, c);
    let lines = lines_of(b);
    if l + 1 < lines.len() {
        let t = l + 1;
        let m = if col <= lines[t as int].len() { col } else { lines[t as int].len() };
        assert(index_of_line_col(b, t as int, col as int) == index_of_line_col(b, t as int, m as int));
        lemma_index_round_trip(b, t as int, m as int);
    }
    if l > 0 {
        let t = l - 1;
        let m = if col <= lines[t as int].len() { col } else { lines[t as int].len() };
        assert(index_of_line_col(b, t as int, col as int) == index_of_line_col(b, t as int, m as int));
        lemma_index_round_trip(b, t as int, m as int);
    }
}

/// Home (or Ctrl-A) puts the cursor at column 0 of its line and End (or Ctrl-E) at the
/// line's last column, the line unchanged; neither touches the buffer.
pub proof fn lemma_line_ends(b: Seq<char>, c: int, ctrl: bool, s: String)
    requires
        0 <= c <= b.len(),
    ensures
        ({
            let (l, col) = cursor_line_col(b, c);
            let len = lines_of(b)[l as int].len();
            let moved = KeyOutcome { changed: false, handled: true, unfocus: false };
            let (bh, ch, oh) = key_result(b, c, EditorKey::Home, ctrl);
            let (be, ce, oe) = key_result(b, c, EditorKey::End, ctrl);
            let (bn, cn, on) = key_result(b, c, EditorKey::Character(s), true);
            &&& bh == b && oh == moved && cursor_line_col(b, ch) == (l, 0nat)
            &&& be == b && oe == moved && cursor_line_col(b, ce) == (l, len)
            &&& (s@ == seq!['a'] || s@ == seq!['A']) ==> bn == b && on == moved && cursor_line_col(b, cn) == (l, 0nat)
            &&& (s@ == seq!['e'] || s@ == seq!['E']) ==> bn == b && on == moved && cursor_line_col(b, cn) == (l, len)
        }),
{
    lemma_line_col_in_lines(b, c);
    assert(b.take(c) == b.take(if c < b.len() { c } else { b.len() as int }));
    let (l, col) = cursor_line_col(b, c);
    lemma_index_round_trip(b, l as int, 0);
    lemma_index_round_trip(b, l as int, lines_of(b)[l as int].len() as int);
}

/// Typing inserts the text at the cursor and puts the cursor after it; Enter inserts a
/// newline the same way; Backspace (or Ctrl-H) removes the character before the cursor
/// and Delete (or Ctrl-D) the one under it, the cursor staying before the gap, each a
/// no-op at its end of the buffer; Left and Right (or Ctrl-B, Ctrl-F) move one
/// character, stopping at the ends; Escape leaves the editor with nothing changed.
pub proof fn lemma_editing_keys(b: Seq<char>, c: int, s: String, t: String)
    requires
        0 <= c <= b.len(),
    ensures
        ({
            let (bt, ct, ot) = key_result(b, c, EditorKey::Character(s), false);
            &&& bt.len() == b.len() + s@.len() && bt.take(c) == b.take(c)
                && bt.subrange(c, c + s@.len()) == s@ && bt.skip(c + s@.len()) == b.skip(c)
            &&& ct == c + s@.len() && ot.changed && ot.handled && !ot.unfocus
        }),
        ({
            let (bt, ct, ot) = key_result(b, c, EditorKey::Enter, false);
            &&& bt.len() == b.len() + 1 && bt.take(c) == b.take(c) && bt[c] == '\n' && bt.skip(c + 1) == b.skip(c)
            &&& ct == c + 1 && ot.changed && !ot.unfocus
        }),
        ({
            let back = key_result(b, c, EditorKey::Backspace, false);
            let back_chord = key_result(b, c, EditorKey::Character(t), true);
            &&& c > 0 ==> back.0.len() == b.len() - 1 && back.0.take(c - 1) == b.take(c - 1)
                && back.0.skip(c - 1) == b.skip(c) && back.1 == c - 1 && back.2.changed
            &&& c == 0 ==> back.0 == b && back.1 == c && !back.2.changed
            &&& (t@ == seq!['h'] || t@ == seq!['H']) ==> back_chord == back
        }),
        ({
            let del = key_result(b, c, EditorKey::Delete, false);
            let del_chord = key_result(b, c, EditorKey::Character(t), true);
            &&& c < b.len() ==> del.0.len() == b.len() - 1 && del.0.take(c) == b.take(c)
                && del.0.skip(c) == b.skip(c + 1) && del.1 == c && del.2.changed
            &&& c == b.len() ==> del.0 == b && del.1 == c && !del.2.changed
            &&& (t@ == seq!['d'] || t@ == seq!['D']) ==> del_chord == del
        }),
        ({
            let left = key_result(b, c, EditorKey::ArrowLeft, false);
            let right = key_result(b, c, EditorKey::ArrowRight, false);
            let chord = key_result(b, c, EditorKey::Character(t), true);
            &&& left.0 == b && left.1 == if c > 0 { c - 1 } else { 0 } && !left.2.changed
            &&& right.0 == b && right.1 == if c < b.len() { c + 1 } else { c } && !right.2.changed
            &&& (t@ == seq!['b'] || t@ == seq!['B']) ==> chord == left
            &&& (t@ == seq!['f'] || t@ == seq!['F']) ==> chord == right
        }),
        key_result(b, c, EditorKey::Escape, false) == (b, c, KeyOutcome { changed: false, handled: true, unfocus: true }),
{
    let (bt, ct, ot) = key_result(b, c, EditorKey::Character(s), false);
    assert(bt.take(c) =~= b.take(c));
    assert(bt.subrange(c, c + s@.len()) =~= s@);
    assert(bt.skip(c + s@.len()) =~= b.skip(c));
    let (be, ce, oe) = key_result(b, c, EditorKey::Enter, false);
    assert(be.take(c) =~= b.take(c));
    assert(be.skip(c + 1) =~= b.skip(c));
    if c > 0 {
        let nb = b.remove(c - 1);
        assert(nb.take(c - 1) =~= b.take(c - 1));
        assert(nb.skip(c - 1) =~= b.skip(c));
    }
    if c < b.len() {
        let nb = b.remove(c);
        assert(nb.take(c) =~= b.take(c));
        assert(nb.skip(c) =~= b.skip(c + 1));
    }
}

/// Ctrl-K kills from the cursor: on a newline it removes that newline alone; elsewhere
/// it removes the rest of the cursor's line, up to the next newline (kept) or the
/// buffer's end; at the buffer's end it does nothing. The cursor stays.
pub proof fn lemma_kill_line(b: Seq<char>, c: int, t: String)
    requires
        0 <= c <= b.len(),
        b.len() < usize::MAX,
        t@ == seq!['k'] || t@ == seq!['K'],
    ensures
        ({
            let (nb, nc, o) = key_result(b, c, EditorKey::Character(t), true);
            &&& nc == c && o.handled && !o.unfocus
            &&& c == b.len() ==> nb == b && !o.changed
            &&& c < b.len() && b[c] == '\n' ==> nb == b.take(c) + b.skip(c + 1) && o.changed
            &&& c < b.len() && b[c] != '\n' ==> o.changed && exists|e: int| c < e <= b.len()
                && (e == b.len() || b[e] == '\n')
                && (forall|j: int| c <= j < e ==> b[j] != '\n')
                && nb == b.take(c) + b.skip(e)
        }),
{
    if c < b.len() && b[c] != '\n' {
        lemma_cursor_line_bounds(b, c);
        let e = line_end_of(b, c);
        assert(c != e);
    }
}

} // verus!
