//! The editing state: a text buffer, a cursor, and the column kept across vertical moves.
use vstd::prelude::*;

pub use crate::keys::{
    KeyCode, KeyEvent, KeyEventKind, KeyModifiers, ALT_BIT, CONTROL_BIT, SHIFT_BIT, SUPER_BIT,
};
use crate::lines::{
    count_newlines, line_begin, line_bounds_at, line_col_at, line_end, line_finish, line_start,
    line_start_of, nat_min, pos_at_visual_col,
};
use crate::text::{
    char_width, is_whitespace, lemma_take_full_chars, lemma_utf8_len_concat,
    lemma_utf8_len_push, lemma_utf8_len_single, lemma_utf8_len_take_le,
    lemma_utf8_len_take_mono, lemma_utf8_len_take_succ, spec_char_width, spec_is_whitespace,
    str_chars, string_from_chars, utf8_len,
};

verus! {

/// What the caller should do after a key press.
#[derive(Debug, Clone, Copy, PartialEq, Eq, Structural)]
pub enum EditorAction {
    Continue,
    SaveAndExit,
    Cancel,
}

/// The abstract state of an editor: its characters, the cursor as a character position,
/// and the column that vertical moves aim for.
pub struct EditorModel {
    pub text: Seq<char>,
    pub caret: nat,
    pub goal: Option<nat>,
}

/// The start of the run of white space that ends at `k`.
pub open spec fn skip_space_back(t: Seq<char>, k: nat) -> nat
    decreases k,
{
    if k > 0 && k <= t.len() && spec_is_whitespace(t[k - 1]) {
        skip_space_back(t, (k - 1) as nat)
    } else {
        k
    }
}

/// The start of the run of non-space characters that ends at `k`.
pub open spec fn skip_word_back(t: Seq<char>, k: nat) -> nat
    decreases k,
{
    if k > 0 && k <= t.len() && !spec_is_whitespace(t[k - 1]) {
        skip_word_back(t, (k - 1) as nat)
    } else {
        k
    }
}

/// The four spaces that Tab inserts.
pub open spec fn tab_text() -> Seq<char> {
    seq![' ', ' ', ' ', ' ']
}

/// Tab adds four bytes.
pub proof fn lemma_tab_len()
    ensures
        utf8_len(tab_text()) == 4,
{
    let t = tab_text();
    assert(t =~= seq![' '] + seq![' '] + seq![' '] + seq![' ']);
    lemma_utf8_len_single(' ');
    lemma_utf8_len_concat(seq![' '], seq![' ']);
    lemma_utf8_len_concat(seq![' '] + seq![' '], seq![' ']);
    lemma_utf8_len_concat(seq![' '] + seq![' '] + seq![' '], seq![' ']);
}

impl EditorModel {
    /// The cursor lies within the text.
    pub open spec fn valid(self) -> bool {
        self.caret <= self.text.len()
    }

    /// Length in characters of the line that starts at `start`.
    pub open spec fn line_len_from(self, start: nat) -> nat {
        (line_finish(self.text, start) - start) as nat
    }

    /// Byte offset of the cursor in the UTF-8 text.
    pub open spec fn cursor_bytes(self) -> nat {
        utf8_len(self.text.take(self.caret as int))
    }

    /// Line number of the cursor, from 0.
    pub open spec fn line(self) -> nat {
        count_newlines(self.text.take(self.caret as int))
    }

    /// Column of the cursor in characters, from 0.
    pub open spec fn col(self) -> nat {
        (self.caret - line_begin(self.text, self.caret)) as nat
    }

    /// The cursor placed at `caret`, with no column kept.
    pub open spec fn with_caret(self, caret: nat) -> EditorModel {
        EditorModel { text: self.text, caret, goal: None }
    }

    /// `c` inserted at the cursor, the cursor after it.
    pub open spec fn insert_char(self, c: char) -> EditorModel {
        EditorModel {
            text: self.text.insert(self.caret as int, c),
            caret: self.caret + 1,
            goal: None,
        }
    }

    /// `s` inserted at the cursor, the cursor after it.
    pub open spec fn insert_str(self, s: Seq<char>) -> EditorModel {
        EditorModel {
            text: self.text.take(self.caret as int) + s + self.text.skip(self.caret as int),
            caret: self.caret + s.len(),
            goal: None,
        }
    }

    /// One character back, unless at the start.
    pub open spec fn move_left(self) -> EditorModel {
        if self.caret > 0 {
            self.with_caret((self.caret - 1) as nat)
        } else {
            self
        }
    }

    /// One character forward, unless at the end.
    pub open spec fn move_right(self) -> EditorModel {
        if self.caret < self.text.len() {
            self.with_caret(self.caret + 1)
        } else {
            self
        }
    }

    /// To the start of the cursor's line.
    pub open spec fn move_home(self) -> EditorModel {
        self.with_caret(line_begin(self.text, self.caret))
    }

    /// To the end of the cursor's line.
    pub open spec fn move_end(self) -> EditorModel {
        self.with_caret(line_finish(self.text, self.caret))
    }

    /// The column aimed for by a vertical move: the kept one, or else the current one.
    pub open spec fn target_col(self) -> nat {
        match self.goal {
            Some(g) => g,
            None => self.col(),
        }
    }

    /// To the line above, at the aimed-for column or its end; nothing on the first line.
    pub open spec fn move_up(self) -> EditorModel {
        if self.line() == 0 {
            self
        } else {
            let target = self.target_col();
            let start = line_start_of(self.text, (self.line() - 1) as nat);
            let end = line_finish(self.text, start);
            EditorModel { text: self.text, caret: nat_min(start + target, end), goal: Some(target) }
        }
    }

    /// To the line below, at the aimed-for column or its end; nothing on the last line.
    pub open spec fn move_down(self) -> EditorModel {
        let cur_start = line_start_of(self.text, self.line());
        let cur_end = line_finish(self.text, cur_start);
        if cur_end >= self.text.len() {
            self
        } else {
            let target = self.target_col();
            let start = cur_end + 1;
            let end = line_finish(self.text, start);
            EditorModel { text: self.text, caret: nat_min(start + target, end), goal: Some(target) }
        }
    }

    /// The character before the cursor removed, unless at the start.
    pub open spec fn backspace(self) -> EditorModel {
        if self.caret > 0 {
            EditorModel {
                text: self.text.remove(self.caret - 1),
                caret: (self.caret - 1) as nat,
                goal: None,
            }
        } else {
            self
        }
    }

    /// The character at the cursor removed, unless at the end.
    pub open spec fn delete(self) -> EditorModel {
        if self.caret < self.text.len() {
            EditorModel { text: self.text.remove(self.caret as int), caret: self.caret, goal: None }
        } else {
            self
        }
    }

    /// Where a word deletion starts: back over white space, then back over the word before it.
    pub open spec fn word_start(self) -> nat {
        skip_word_back(self.text, skip_space_back(self.text, self.caret))
    }

    /// The white space before the cursor and the word before it removed; nothing at the start.
    pub open spec fn delete_word_back(self) -> EditorModel {
        if self.caret == 0 {
            self
        } else {
            let start = self.word_start();
            EditorModel {
                text: self.text.take(start as int) + self.text.skip(self.caret as int),
                caret: start,
                goal: None,
            }
        }
    }

    /// The state and action that a key press leads to.
    pub open spec fn key_step(self, key: KeyEvent) -> (EditorModel, EditorAction) {
        let ctrl = key.modifiers.has(CONTROL_BIT);
        let alt = key.modifiers.has(ALT_BIT);
        let sup = key.modifiers.has(SUPER_BIT);
        match key.code {
            KeyCode::Char(c) => if c == 's' && ctrl {
                (self, EditorAction::SaveAndExit)
            } else if (c == 'q' || c == 'z') && ctrl {
                (self, EditorAction::Cancel)
            } else if c == 'w' && ctrl {
                (self.delete_word_back(), EditorAction::Continue)
            } else if !ctrl && !sup {
                (self.insert_char(c), EditorAction::Continue)
            } else {
                (self, EditorAction::Continue)
            },
            KeyCode::Esc => (self, EditorAction::Cancel),
            KeyCode::Backspace => if alt {
                (self.delete_word_back(), EditorAction::Continue)
            } else {
                (self.backspace(), EditorAction::Continue)
            },
            KeyCode::Delete => (self.delete(), EditorAction::Continue),
            KeyCode::Enter => (self.insert_char('\n'), EditorAction::Continue),
            KeyCode::Tab => (self.insert_str(tab_text()), EditorAction::Continue),
            KeyCode::Left => (self.move_left(), EditorAction::Continue),
            KeyCode::Right => (self.move_right(), EditorAction::Continue),
            KeyCode::Up => (self.move_up(), EditorAction::Continue),
            KeyCode::Down => (self.move_down(), EditorAction::Continue),
            KeyCode::Home => (self.move_home(), EditorAction::Continue),
            KeyCode::End => (self.move_end(), EditorAction::Continue),
            KeyCode::Other => (self, EditorAction::Continue),
        }
    }

}

/// Bytes that a key press may add to the text.
pub open spec fn key_growth(key: KeyEvent) -> nat {
    let ctrl = key.modifiers.has(CONTROL_BIT);
    let sup = key.modifiers.has(SUPER_BIT);
    match key.code {
        KeyCode::Char(c) => if !ctrl && !sup {
            spec_char_width(c)
        } else {
            0
        },
        KeyCode::Enter => 1,
        KeyCode::Tab => 4,
        _ => 0,
    }
}

/// Bytes that a key press may add to the text.
pub fn key_growth_bytes(key: &KeyEvent) -> (n: usize)
    ensures
        n == key_growth(*key),
{
    let ctrl = key.modifiers.contains(KeyModifiers::control());
    let sup = key.modifiers.contains(KeyModifiers::super_key());
    match key.code {
        KeyCode::Char(c) => if !ctrl && !sup {
            char_width(c)
        } else {
            0
        },
        KeyCode::Enter => 1,
        KeyCode::Tab => 4,
        _ => 0,
    }
}

/// A text buffer with a cursor.
#[derive(Debug, Clone)]
pub struct EditorState {
    /// The text, handed out as a `str`.
    buffer: String,
    /// The same text, one character per position, for editing.
    chars: Vec<char>,
    /// The cursor as a character position.
    pos: usize,
    /// The cursor as a byte offset into `buffer`.
    cursor: usize,
    /// The column that vertical moves aim for, kept across them.
    desired_col: Option<usize>,
}

impl View for EditorState {
    type V = EditorModel;

    closed spec fn view(&self) -> EditorModel {
        EditorModel {
            text: self.chars@,
            caret: self.pos as nat,
            goal: match self.desired_col {
                Some(g) => Some(g as nat),
                None => None,
            },
        }
    }
}

/// Byte offset of the character position `k` of `s`.
fn byte_offset(s: &Vec<char>, k: usize) -> (r: usize)
    requires
        k <= s.len(),
        utf8_len(s@) <= usize::MAX,
    ensures
        r == utf8_len(s@.take(k as int)),
{
    let mut total: usize = 0;
    let mut i: usize = 0;
    while i < k
        invariant
            i <= k <= s.len(),
            utf8_len(s@) <= usize::MAX,
            total == utf8_len(s@.take(i as int)),
        decreases k - i,
    {
        proof {
            lemma_utf8_len_take_succ(s@, i as int);
            lemma_utf8_len_take_le(s@, i + 1);
        }
        total += char_width(s[i]);
        i += 1;
    }
    total
}

/// The position before `idx`, if there is one.
fn prev_char_start(s: &Vec<char>, idx: usize) -> (r: Option<usize>)
    ensures
        r == (if idx == 0 || idx > s.len() {
            None::<usize>
        } else {
            Some((idx - 1) as usize)
        }),
{
    if idx == 0 || idx > s.len() {
        return None;
    }
    Some(idx - 1)
}

/// The position after `idx`, if there is a character at `idx`.
fn next_char_end(s: &Vec<char>, idx: usize) -> (r: Option<usize>)
    ensures
        r == (if idx >= s.len() {
            None::<usize>
        } else {
            Some((idx + 1) as usize)
        }),
{
    if idx >= s.len() {
        return None;
    }
    Some(idx + 1)
}

/// The character at `idx`, or NUL past the end.
fn char_at(s: &Vec<char>, idx: usize) -> (c: char)
    ensures
        c == (if idx < s.len() {
            s@[idx as int]
        } else {
            '\0'
        }),
{
    if idx < s.len() {
        s[idx]
    } else {
        '\0'
    }
}

/// `v` with the positions `from..to` taken out.
fn remove_range(v: &mut Vec<char>, from: usize, to: usize)
    requires
        from <= to <= old(v).len(),
    ensures
        final(v)@ == old(v)@.take(from as int) + old(v)@.skip(to as int),
{
    let ghost orig = v@;
    let mut k: usize = from;
    while k < to
        invariant
            from <= k <= to <= orig.len(),
            v@ == orig.take(from as int) + orig.skip(k as int),
        decreases to - k,
    {
        assert(v@[from as int] == orig[k as int]);
        v.remove(from);
        assert(v@ =~= orig.take(from as int) + orig.skip(k + 1));
        k += 1;
    }
}

impl EditorState {
    /// The fields agree: the string holds the characters, and the cursor is the byte offset of
    /// the character position.
    pub closed spec fn wf(&self) -> bool {
        &&& self.buffer@ == self.chars@
        &&& self.pos <= self.chars.len()
        &&& self.cursor == utf8_len(self.chars@.take(self.pos as int))
        &&& utf8_len(self.chars@) <= usize::MAX
    }

    /// A well-formed state has its cursor within the text.
    pub proof fn lemma_view_valid(&self)
        requires
            self.wf(),
        ensures
            self@.valid(),
            utf8_len(self@.text) <= usize::MAX,
    {
    }

    /// An empty buffer with the cursor at the start.
    pub fn new() -> (r: Self)
        ensures
            r.wf(),
            r@.text == Seq::<char>::empty(),
            r@.caret == 0,
            r@.goal is None,
    {
        let r = EditorState {
            buffer: String::new(),
            chars: Vec::new(),
            pos: 0,
            cursor: 0,
            desired_col: None,
        };
        assert(r.chars@.take(0) =~= Seq::<char>::empty());
        r
    }

    /// The text.
    pub fn buffer(&self) -> (r: &str)
        requires
            self.wf(),
        ensures
            r@ == self@.text,
    {
        self.buffer.as_str()
    }

    /// The cursor, as a byte offset into the text.
    pub fn cursor(&self) -> (r: usize)
        requires
            self.wf(),
        ensures
            r == self@.cursor_bytes(),
    {
        self.cursor
    }

    /// Line and column of the cursor, from 0, the column counted in characters.
    pub fn line_col(&self) -> (r: (usize, usize))
        requires
            self.wf(),
        ensures
            r.0 == self@.line(),
            r.1 == self@.col(),
    {
        line_col_at(&self.chars, self.pos)
    }

    /// Places the cursor at character position `pos` and drops the kept column.
    fn place(&mut self, pos: usize)
        requires
            old(self).wf(),
            pos <= old(self).chars.len(),
        ensures
            final(self).wf(),
            final(self)@ == old(self)@.with_caret(pos as nat),
    {
        self.cursor = byte_offset(&self.chars, pos);
        self.pos = pos;
        self.desired_col = None;
    }

    /// Moves one character back.
    pub fn move_left(&mut self)
        requires
            old(self).wf(),
        ensures
            final(self).wf(),
            final(self)@ == old(self)@.move_left(),
    {
        if let Some(prev) = prev_char_start(&self.chars, self.pos) {
            proof {
                lemma_utf8_len_take_succ(self.chars@, prev as int);
            }
            self.cursor = self.cursor - char_width(self.chars[prev]);
            self.pos = prev;
            self.desired_col = None;
        }
    }

    /// Moves one character forward.
    pub fn move_right(&mut self)
        requires
            old(self).wf(),
        ensures
            final(self).wf(),
            final(self)@ == old(self)@.move_right(),
    {
        if let Some(next) = next_char_end(&self.chars, self.pos) {
            proof {
                lemma_utf8_len_take_succ(self.chars@, self.pos as int);
                lemma_utf8_len_take_le(self.chars@, next as int);
            }
            self.cursor = self.cursor + char_width(self.chars[self.pos]);
            self.pos = next;
            self.desired_col = None;
        }
    }

    /// Moves to the start of the line.
    pub fn move_home(&mut self)
        requires
            old(self).wf(),
        ensures
            final(self).wf(),
            final(self)@ == old(self)@.move_home(),
    {
        let (line_start, _) = line_bounds_at(&self.chars, self.pos);
        self.place(line_start);
    }

    /// Moves to the end of the line.
    pub fn move_end(&mut self)
        requires
            old(self).wf(),
        ensures
            final(self).wf(),
            final(self)@ == old(self)@.move_end(),
    {
        let (_, line_end) = line_bounds_at(&self.chars, self.pos);
        self.place(line_end);
    }

    /// Moves to the line above, keeping the column aimed for.
    pub fn move_up(&mut self)
        requires
            old(self).wf(),
        ensures
            final(self).wf(),
            final(self)@ == old(self)@.move_up(),
    {
        let (line, col) = self.line_col();
        if line == 0 {
            return;
        }
        let target_col = match self.desired_col {
            Some(t) => t,
            None => col,
        };
        let prev_line_start = line_start(&self.chars, line - 1);
        let prev_line_end = line_end(&self.chars, prev_line_start);
        let p = pos_at_visual_col(&self.chars, prev_line_start, prev_line_end, target_col);
        self.place(p);
        self.desired_col = Some(target_col);
    }

    /// Moves to the line below, keeping the column aimed for.
    pub fn move_down(&mut self)
        requires
            old(self).wf(),
        ensures
            final(self).wf(),
            final(self)@ == old(self)@.move_down(),
    {
        let (line, col) = self.line_col();
        let current_line_start = line_start(&self.chars, line);
        let current_line_end = line_end(&self.chars, current_line_start);
        if current_line_end >= self.chars.len() {
            return;
        }
        let target_col = match self.desired_col {
            Some(t) => t,
            None => col,
        };
        let next_line_start = current_line_end + 1;
        let next_line_end = line_end(&self.chars, next_line_start);
        let p = pos_at_visual_col(&self.chars, next_line_start, next_line_end, target_col);
        self.place(p);
        self.desired_col = Some(target_col);
    }

    /// After the characters changed: brings the string in step and places the cursor.
    fn resync(&mut self, pos: usize, cursor: usize)
        requires
            pos <= old(self).chars.len(),
            cursor == utf8_len(old(self).chars@.take(pos as int)),
            utf8_len(old(self).chars@) <= usize::MAX,
        ensures
            final(self).wf(),
            final(self)@ == (EditorModel { text: old(self).chars@, caret: pos as nat, goal: None }),
    {
        self.buffer = string_from_chars(&self.chars);
        self.pos = pos;
        self.cursor = cursor;
        self.desired_col = None;
    }

    /// Deletes the character before the cursor.
    pub fn backspace(&mut self)
        requires
            old(self).wf(),
        ensures
            final(self).wf(),
            final(self)@ == old(self)@.backspace(),
    {
        if let Some(prev) = prev_char_start(&self.chars, self.pos) {
            let ghost t = self.chars@;
            let w = char_width(self.chars[prev]);
            self.chars.remove(prev);
            proof {
                let p = prev as int;
                lemma_utf8_len_take_succ(t, p);
                assert(self.chars@.take(p) =~= t.take(p));
                assert(t =~= t.take(p + 1) + t.skip(p + 1));
                assert(self.chars@ =~= t.take(p) + t.skip(p + 1));
                lemma_utf8_len_concat(t.take(p + 1), t.skip(p + 1));
                lemma_utf8_len_concat(t.take(p), t.skip(p + 1));
            }
            let cursor = self.cursor - w;
            self.resync(prev, cursor);
        }
    }

    /// Deletes the character at the cursor.
    pub fn delete(&mut self)
        requires
            old(self).wf(),
        ensures
            final(self).wf(),
            final(self)@ == old(self)@.delete(),
    {
        if let Some(_next) = next_char_end(&self.chars, self.pos) {
            let ghost t = self.chars@;
            let pos = self.pos;
            self.chars.remove(pos);
            proof {
                let p = pos as int;
                assert(self.chars@.take(p) =~= t.take(p));
                assert(t =~= t.take(p + 1) + t.skip(p + 1));
                assert(self.chars@ =~= t.take(p) + t.skip(p + 1));
                lemma_utf8_len_concat(t.take(p + 1), t.skip(p + 1));
                lemma_utf8_len_concat(t.take(p), t.skip(p + 1));
                lemma_utf8_len_take_succ(t, p);
            }
            let cursor = self.cursor;
            self.resync(pos, cursor);
        }
    }

    /// Deletes the white space before the cursor and the word before that.
    pub fn delete_word_back(&mut self)
        requires
            old(self).wf(),
        ensures
            final(self).wf(),
            final(self)@ == old(self)@.delete_word_back(),
    {
        if self.pos == 0 {
            return;
        }
        let ghost t = self.chars@;
        let mut start = self.pos;
        loop
            invariant
                start <= self.pos <= t.len(),
                t == self.chars@,
                skip_space_back(t, self.pos as nat) == skip_space_back(t, start as nat),
            ensures
                start <= self.pos,
                skip_space_back(t, self.pos as nat) == start,
            decreases start,
        {
            match prev_char_start(&self.chars, start) {
                Some(prev) => {
                    let c = char_at(&self.chars, prev);
                    if !is_whitespace(c) {
                        break;
                    }
                    start = prev;
                },
                None => {
                    break;
                },
            }
        }
        let ghost spaced = start;
        loop
            invariant
                start <= spaced <= self.pos <= t.len(),
                t == self.chars@,
                skip_word_back(t, spaced as nat) == skip_word_back(t, start as nat),
            ensures
                start <= self.pos,
                skip_word_back(t, spaced as nat) == start,
            decreases start,
        {
            match prev_char_start(&self.chars, start) {
                Some(prev) => {
                    let c = char_at(&self.chars, prev);
                    if is_whitespace(c) {
                        break;
                    }
                    start = prev;
                },
                None => {
                    break;
                },
            }
        }
        let pos = self.pos;
        remove_range(&mut self.chars, start, pos);
        proof {
            let s = start as int;
            assert(self.chars@.take(s) =~= t.take(s));
            assert(t =~= t.take(pos as int) + t.skip(pos as int));
            lemma_utf8_len_concat(t.take(pos as int), t.skip(pos as int));
            lemma_utf8_len_concat(t.take(s), t.skip(pos as int));
            lemma_utf8_len_take_le(t, pos as int);
            assert(t.take(pos as int).take(s) =~= t.take(s));
            lemma_utf8_len_take_le(t.take(pos as int), s);
        }
        let cursor = byte_offset(&self.chars, start);
        self.resync(start, cursor);
    }

    /// Inserts `c` at the cursor and moves the cursor past it.
    pub fn insert_char(&mut self, c: char)
        requires
            old(self).wf(),
            utf8_len(old(self)@.text) + spec_char_width(c) <= usize::MAX,
        ensures
            final(self).wf(),
            final(self)@ == old(self)@.insert_char(c),
    {
        let ghost t = self.chars@;
        let pos = self.pos;
        self.chars.insert(pos, c);
        proof {
            let p = pos as int;
            assert(self.chars@.take(p + 1) =~= t.take(p).push(c));
            assert(self.chars@ =~= t.take(p) + seq![c] + t.skip(p));
            assert(t =~= t.take(p) + t.skip(p));
            lemma_utf8_len_concat(t.take(p), t.skip(p));
            lemma_utf8_len_concat(t.take(p) + seq![c], t.skip(p));
            lemma_utf8_len_push(t.take(p), c);
            assert(t.take(p).push(c) =~= t.take(p) + seq![c]);
            lemma_utf8_len_take_le(t, p);
            lemma_utf8_len_take_mono(self.chars@, 0, self.chars@.len() as int);
            assert(self.chars@.take(self.chars@.len() as int) =~= self.chars@);
        }
        let cursor = self.cursor + char_width(c);
        self.resync(pos + 1, cursor);
    }

    /// Inserts `s` at the cursor and moves the cursor past it.
    pub fn insert_str(&mut self, s: &str)
        requires
            old(self).wf(),
            utf8_len(old(self)@.text) + utf8_len(s@) <= usize::MAX,
        ensures
            final(self).wf(),
            final(self)@ == old(self)@.insert_str(s@),
    {
        let ghost t = self.chars@;
        let pos = self.pos;
        let added = str_chars(s);
        proof {
            lemma_utf8_len_take_mono(t, 0, t.len() as int);
            lemma_utf8_len_take_mono(s@, 0, s@.len() as int);
            lemma_take_full_chars(t);
            lemma_take_full_chars(s@);
            assert(t.take(0) =~= Seq::<char>::empty());
            assert(s@.take(0) =~= Seq::<char>::empty());
            lemma_utf8_len_take_le(t, pos as int);
        }
        let mut i: usize = 0;
        while i < added.len()
            invariant
                pos <= t.len(),
                pos + added@.len() <= usize::MAX,
                self.cursor == utf8_len(t.take(pos as int)),
                self.cursor + utf8_len(s@) <= usize::MAX,
                i <= added.len(),
                added@ == s@,
                self.chars@ == t.take(pos as int) + added@.take(i as int) + t.skip(pos as int),
            decreases added.len() - i,
        {
            self.chars.insert(pos + i, added[i]);
            assert(self.chars@ =~= t.take(pos as int) + added@.take(i + 1) + t.skip(pos as int));
            i += 1;
        }
        proof {
            let p = pos as int;
            assert(added@.take(added.len() as int) =~= added@);
            assert(self.chars@.take(p + s@.len()) =~= t.take(p) + s@);
            assert(t =~= t.take(p) + t.skip(p));
            lemma_utf8_len_concat(t.take(p), t.skip(p));
            lemma_utf8_len_concat(t.take(p), s@);
            lemma_utf8_len_concat(t.take(p) + s@, t.skip(p));
            lemma_utf8_len_take_le(t, p);
            lemma_utf8_len_take_mono(self.chars@, 0, self.chars@.len() as int);
            assert(self.chars@.take(self.chars@.len() as int) =~= self.chars@);
            assert(self.chars@.take(0) =~= Seq::<char>::empty());
        }
        let cursor = self.cursor + s.len();
        self.resync(pos + added.len(), cursor);
    }

    /// Applies one key press and says what the caller should do next.
    pub fn handle_key(&mut self, key: KeyEvent) -> (action: EditorAction)
        requires
            old(self).wf(),
            utf8_len(old(self)@.text) + key_growth(key) <= usize::MAX,
        ensures
            final(self).wf(),
            (final(self)@, action) == old(self)@.key_step(key),
    {
        let ctrl = key.modifiers.contains(KeyModifiers::control());
        let alt = key.modifiers.contains(KeyModifiers::alt());
        let sup = key.modifiers.contains(KeyModifiers::super_key());
        match key.code {
            KeyCode::Char(c) => {
                if c == 's' && ctrl {
                    EditorAction::SaveAndExit
                } else if (c == 'q' || c == 'z') && ctrl {
                    EditorAction::Cancel
                } else if c == 'w' && ctrl {
                    self.delete_word_back();
                    EditorAction::Continue
                } else if !ctrl && !sup {
                    self.insert_char(c);
                    EditorAction::Continue
                } else {
                    EditorAction::Continue
                }
            },
            KeyCode::Esc => EditorAction::Cancel,
            KeyCode::Backspace => {
                if alt {
                    self.delete_word_back();
                } else {
                    self.backspace();
                }
                EditorAction::Continue
            },
            KeyCode::Delete => {
                self.delete();
                EditorAction::Continue
            },
            KeyCode::Enter => {
                self.insert_char('\n');
                EditorAction::Continue
            },
            KeyCode::Tab => {
                proof {
                    reveal_strlit("    ");
                }
                assert("    "@ =~= tab_text());
                proof {
                    lemma_tab_len();
                }
                self.insert_str("    ");
                EditorAction::Continue
            },
            KeyCode::Left => {
                self.move_left();
                EditorAction::Continue
            },
            KeyCode::Right => {
                self.move_right();
                EditorAction::Continue
            },
            KeyCode::Up => {
                self.move_up();
                EditorAction::Continue
            },
            KeyCode::Down => {
                self.move_down();
                EditorAction::Continue
            },
            KeyCode::Home => {
                self.move_home();
                EditorAction::Continue
            },
            KeyCode::End => {
                self.move_end();
                EditorAction::Continue
            },
            KeyCode::Other => EditorAction::Continue,
        }
    }
}


impl Default for EditorState {
    fn default() -> (r: Self)
        ensures
            r.wf(),
            r@.text == Seq::<char>::empty(),
            r@.caret == 0,
            r@.goal is None,
    {
        Self::new()
    }
}

} // verus!
