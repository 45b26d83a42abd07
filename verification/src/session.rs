//! One editing session: keys and pastes go to the hidden buffer, and the decoy buffer
//! advances by decoy code alone; plus the small rules of the screen around them.
use vstd::prelude::*;

use crate::editor::{key_growth, key_growth_bytes, EditorAction, EditorModel, EditorState};
use crate::keys::{KeyCode, KeyEvent, KeyEventKind, KeyModifiers, CONTROL_BIT, SUPER_BIT};
use crate::fake::{
    drawn_from, law_key_keeps_decoy_drawn_from_tape, law_paste_keeps_decoy_drawn_from_tape,
    FakeTyper, TyperModel,
};
use crate::text::{str_chars, utf8_len, utf8_len_within};

verus! {

/// An input event.
pub enum InputEvent {
    Key(KeyEvent),
    Paste(String),
    Other,
}

/// What the session asks of its caller after an event.
pub enum SessionStep {
    Continue,
    /// Leave without copying anything.
    Cancelled,
    /// Leave and copy this text.
    Save(String),
}

/// The abstract state of a session.
pub struct SessionModel {
    pub hidden: EditorModel,
    pub decoy: EditorModel,
    pub typer: TyperModel,
}

/// Key events that count: presses and repeats, not releases.
pub open spec fn counts(key: KeyEvent) -> bool {
    key.kind == KeyEventKind::Press || key.kind == KeyEventKind::Repeat
}

impl SessionModel {
    /// The buffers have room for what the event may add.
    pub open spec fn fits(self, ev: InputEvent) -> bool {
        match ev {
            InputEvent::Key(key) => {
                &&& utf8_len(self.hidden.text) + key_growth(key) <= usize::MAX
                &&& utf8_len(self.decoy.text) + 8 <= usize::MAX
            },
            InputEvent::Paste(p) => {
                &&& utf8_len(self.hidden.text) + utf8_len(p@) <= usize::MAX
                &&& utf8_len(self.decoy.text) + 8 * p@.len() <= usize::MAX
            },
            InputEvent::Other => true,
        }
    }

    /// The state after an event, and whether the session goes on (`None`), is cancelled
    /// (`Some(None)`) or saves the hidden text (`Some(Some(text))`).
    pub open spec fn step(self, ev: InputEvent) -> (SessionModel, Option<Option<Seq<char>>>) {
        match ev {
            InputEvent::Key(key) => if !counts(key) {
                (self, None)
            } else {
                let (hidden, action) = self.hidden.key_step(key);
                match action {
                    EditorAction::Continue => {
                        let (typer, decoy) = self.typer.key(key, self.decoy);
                        (SessionModel { hidden, decoy, typer }, None)
                    },
                    EditorAction::Cancel => (SessionModel { hidden, ..self }, Some(None)),
                    EditorAction::SaveAndExit => (
                        SessionModel { hidden, ..self },
                        Some(Some(hidden.text)),
                    ),
                }
            },
            InputEvent::Paste(p) => {
                let hidden = self.hidden.insert_str(p@);
                let (typer, decoy) = self.typer.paste(self.decoy, p@);
                (SessionModel { hidden, decoy, typer }, None)
            },
            InputEvent::Other => (self, None),
        }
    }
}

/// The meaning of a session step.
pub open spec fn step_meaning(s: SessionStep) -> Option<Option<Seq<char>>> {
    match s {
        SessionStep::Continue => None,
        SessionStep::Cancelled => Some(None),
        SessionStep::Save(text) => Some(Some(text@)),
    }
}

/// A hidden buffer, the decoy shown in its place, and the typer that fills the decoy.
pub struct Session {
    hidden: EditorState,
    decoy: EditorState,
    typer: FakeTyper,
}

impl View for Session {
    type V = SessionModel;

    closed spec fn view(&self) -> SessionModel {
        SessionModel { hidden: self.hidden@, decoy: self.decoy@, typer: self.typer@ }
    }
}

impl Session {
    pub closed spec fn wf(&self) -> bool {
        &&& self.hidden.wf()
        &&& self.decoy.wf()
        &&& self.typer.wf()
    }

    /// A session with empty buffers and the given typer.
    pub fn new(typer: FakeTyper) -> (r: Self)
        requires
            typer.wf(),
        ensures
            r.wf(),
            r@.hidden.text == Seq::<char>::empty(),
            r@.hidden.caret == 0,
            r@.decoy.text == Seq::<char>::empty(),
            r@.decoy.caret == 0,
            r@.typer == typer@,
    {
        Session { hidden: EditorState::new(), decoy: EditorState::new(), typer }
    }

    /// The hidden buffer.
    pub fn hidden(&self) -> (r: &EditorState)
        ensures
            r@ == self@.hidden,
            self.wf() ==> r.wf(),
    {
        &self.hidden
    }

    /// The decoy buffer.
    pub fn decoy(&self) -> (r: &EditorState)
        ensures
            r@ == self@.decoy,
            self.wf() ==> r.wf(),
    {
        &self.decoy
    }

    /// The decoy typer.
    pub fn typer(&self) -> (r: &FakeTyper)
        ensures
            r@ == self@.typer,
            self.wf() ==> r.wf(),
    {
        &self.typer
    }

    /// Whether the buffers have room for what `ev` may add.
    pub fn fits(&self, ev: &InputEvent) -> (b: bool)
        requires
            self.wf(),
        ensures
            b == self@.fits(*ev),
    {
        proof {
            self.hidden.lemma_view_valid();
            self.decoy.lemma_view_valid();
        }
        let hidden_len = self.hidden.buffer().len();
        let decoy_len = self.decoy.buffer().len();
        match ev {
            InputEvent::Key(key) => {
                let growth: usize = key_growth_bytes(key);
                growth <= usize::MAX - hidden_len && decoy_len <= usize::MAX - 8
            },
            InputEvent::Paste(p) => {
                let chars = str_chars(p.as_str());
                let room = usize::MAX - decoy_len;
                let n = chars.len();
                proof {
                    assert(n <= room / 8 <==> 8 * n <= room) by (nonlinear_arith);
                }
                utf8_len_within(&chars, usize::MAX - hidden_len) && n <= room / 8
            },
            InputEvent::Other => true,
        }
    }

    /// Handles one event: a counted key goes to the hidden buffer and, when it keeps the
    /// session going, advances the decoy; a paste goes into the hidden buffer and advances
    /// the decoy once per pasted character that is not a control code.
    pub fn handle_event(&mut self, ev: &InputEvent) -> (s: SessionStep)
        requires
            old(self).wf(),
            old(self)@.fits(*ev),
        ensures
            final(self).wf(),
            (final(self)@, step_meaning(s)) == old(self)@.step(*ev),
    {
        match ev {
            InputEvent::Key(key) => {
                let key = *key;
                match key.kind {
                    KeyEventKind::Release => {
                        return SessionStep::Continue;
                    },
                    _ => {},
                }
                let action = self.hidden.handle_key(key);
                match action {
                    EditorAction::Continue => {
                        self.typer.apply_to_decoy(key, &mut self.decoy);
                        SessionStep::Continue
                    },
                    EditorAction::Cancel => SessionStep::Cancelled,
                    EditorAction::SaveAndExit => {
                        SessionStep::Save(self.hidden.buffer().to_owned())
                    },
                }
            },
            InputEvent::Paste(pasted) => {
                self.hidden.insert_str(pasted.as_str());
                self.typer.apply_paste_to_decoy(pasted.as_str(), &mut self.decoy);
                SessionStep::Continue
            },
            InputEvent::Other => SessionStep::Continue,
        }
    }
}

/// The first line to show so that the cursor's line is on screen: unchanged if it already
/// is, else scrolled just far enough.
pub open spec fn scroll_for(scroll_line: nat, cursor_line: nat, visible_lines: nat) -> nat {
    let s = if cursor_line < scroll_line {
        cursor_line
    } else {
        scroll_line
    };
    if cursor_line - s >= visible_lines {
        if visible_lines >= 1 {
            (cursor_line - (visible_lines - 1)) as nat
        } else {
            cursor_line
        }
    } else {
        s
    }
}

/// Scrolls so that the cursor's line is on screen.
pub fn follow_cursor(scroll_line: usize, cursor_line: usize, visible_lines: usize) -> (r: usize)
    ensures
        r == scroll_for(scroll_line as nat, cursor_line as nat, visible_lines as nat),
{
    let mut scroll = scroll_line;
    if cursor_line < scroll {
        scroll = cursor_line;
    }
    if cursor_line - scroll >= visible_lines {
        scroll = cursor_line.saturating_sub(visible_lines.saturating_sub(1));
    }
    scroll
}

/// With at least one visible line, the cursor's line is on screen after scrolling, and an
/// already visible cursor does not scroll.
pub proof fn law_follow_cursor_shows_cursor(scroll_line: nat, cursor_line: nat, visible_lines: nat)
    requires
        visible_lines >= 1,
    ensures
        scroll_for(scroll_line, cursor_line, visible_lines) <= cursor_line,
        cursor_line < scroll_for(scroll_line, cursor_line, visible_lines) + visible_lines,
        scroll_line <= cursor_line < scroll_line + visible_lines ==> scroll_for(
            scroll_line,
            cursor_line,
            visible_lines,
        ) == scroll_line,
{
}

/// What row `r` of the editor pane shows: the line number (from 1) of a line of the text and
/// whether it is the cursor's line, or nothing past the end of the text.
pub open spec fn row_at(line_count: nat, scroll_line: nat, cursor_line: nat, r: nat) -> Option<(usize, bool)> {
    if scroll_line + r < line_count {
        Some(((scroll_line + r + 1) as usize, scroll_line + r == cursor_line))
    } else {
        None
    }
}

/// The rows of the editor pane, from line `scroll_line` of a text of `line_count` lines: each
/// a numbered line, marked when it holds the cursor, or filler past the end of the text.
pub fn editor_rows(line_count: usize, scroll_line: usize, visible_lines: usize, cursor_line: usize) -> (rows: Vec<Option<(usize, bool)>>)
    requires
        scroll_line + visible_lines <= usize::MAX,
    ensures
        rows@.len() == visible_lines,
        forall|r: int|
            0 <= r < visible_lines ==> #[trigger] rows@[r] == row_at(
                line_count as nat,
                scroll_line as nat,
                cursor_line as nat,
                r as nat,
            ),
{
    let mut rows: Vec<Option<(usize, bool)>> = Vec::new();
    let mut r: usize = 0;
    while r < visible_lines
        invariant
            r <= visible_lines,
            scroll_line + visible_lines <= usize::MAX,
            rows@.len() == r,
            forall|i: int|
                0 <= i < r ==> #[trigger] rows@[i] == row_at(
                    line_count as nat,
                    scroll_line as nat,
                    cursor_line as nat,
                    i as nat,
                ),
        decreases visible_lines - r,
    {
        let line = scroll_line + r;
        if line < line_count {
            rows.push(Some((line + 1, line == cursor_line)));
        } else {
            rows.push(None);
        }
        r += 1;
    }
    rows
}

/// The status text shown for a hidden buffer of `size` characters.
pub open spec fn diagnostics_for(size: nat) -> &'static str {
    let k = (size / 19) % 5;
    if k == 0 {
        "0 errors, 0 warnings"
    } else if k == 1 {
        "1 warning: dead_code"
    } else if k == 2 {
        "indexing workspace\u{2026}"
    } else if k == 3 {
        "types checked"
    } else {
        "tests cached"
    }
}

/// The made-up diagnostics shown in the status line; they change every 19 characters.
pub fn diagnostics_text(size: usize) -> (r: &'static str)
    ensures
        r == diagnostics_for(size as nat),
{
    let k: usize = (size / 19) % 5;
    if k == 0 {
        "0 errors, 0 warnings"
    } else if k == 1 {
        "1 warning: dead_code"
    } else if k == 2 {
        "indexing workspace\u{2026}"
    } else if k == 3 {
        "types checked"
    } else {
        "tests cached"
    }
}

/// Whatever happens, the decoy only ever holds decoy code: if it held only tape characters
/// before an event, it does after it.
pub proof fn law_decoy_stays_decoy(m: SessionModel, ev: InputEvent)
    requires
        m.decoy.valid(),
        drawn_from(m.decoy.text, m.typer.tape),
    ensures
        drawn_from(m.step(ev).0.decoy.text, m.step(ev).0.typer.tape),
        m.step(ev).0.typer.tape == m.typer.tape,
{
    match ev {
        InputEvent::Key(key) => {
            law_key_keeps_decoy_drawn_from_tape(m.typer, m.decoy, key);
        },
        InputEvent::Paste(p) => {
            law_paste_keeps_decoy_drawn_from_tape(m.typer, m.decoy, p@);
        },
        InputEvent::Other => {},
    }
}

/// The text saved is the hidden buffer, with nothing of the decoy in it.
pub proof fn law_save_copies_hidden_text(m: SessionModel, ev: InputEvent)
    ensures
        m.step(ev).1 matches Some(Some(text)) ==> text == m.hidden.text && m.step(ev).0.hidden
            == m.hidden,
{
}

/// A plain key press of `c`: no modifier held.
pub open spec fn typed(c: char) -> InputEvent {
    InputEvent::Key(
        KeyEvent {
            code: KeyCode::Char(c),
            modifiers: KeyModifiers { bits: 0 },
            kind: KeyEventKind::Press,
        },
    )
}

/// The session after typing the characters of `s` one plain key press at a time.
pub open spec fn type_all(m: SessionModel, s: Seq<char>) -> SessionModel
    decreases s.len(),
{
    if s.len() == 0 {
        m
    } else {
        type_all(m, s.drop_last()).step(typed(s.last())).0
    }
}

/// A plain key press of a character types it into the hidden buffer at the cursor, keeps
/// the session going, and advances the decoy by one stroke of decoy code.
pub proof fn law_plain_key_is_captured(m: SessionModel, c: char)
    ensures
        m.step(typed(c)).1 is None,
        m.step(typed(c)).0.hidden == m.hidden.insert_char(c),
        (m.step(typed(c)).0.typer, m.step(typed(c)).0.decoy) == m.typer.stroke(m.decoy),
{
    assert(0u8 & CONTROL_BIT != CONTROL_BIT) by (bit_vector);
    assert(0u8 & SUPER_BIT != SUPER_BIT) by (bit_vector);
}

/// Typing a string into a session whose hidden buffer is empty leaves exactly that string in
/// the hidden buffer, with the cursor at its end; saving then copies it.
pub proof fn law_typed_text_is_what_is_saved(m: SessionModel, s: Seq<char>)
    requires
        m.hidden.text.len() == 0,
        m.hidden.caret == 0,
    ensures
        type_all(m, s).hidden.text == s,
        type_all(m, s).hidden.caret == s.len(),
    decreases s.len(),
{
    if s.len() > 0 {
        law_typed_text_is_what_is_saved(m, s.drop_last());
        let m1 = type_all(m, s.drop_last());
        law_plain_key_is_captured(m1, s.last());
        assert(m1.hidden.text.insert(m1.hidden.caret as int, s.last()) =~= s);
    }
}

/// Typing a string inserts it at the hidden cursor and leaves the cursor right after it.
pub proof fn lemma_type_all_hidden(m: SessionModel, s: Seq<char>)
    requires
        m.hidden.valid(),
    ensures
        type_all(m, s).hidden.text == m.hidden.text.take(m.hidden.caret as int) + s
            + m.hidden.text.skip(m.hidden.caret as int),
        type_all(m, s).hidden.caret == m.hidden.caret + s.len(),
    decreases s.len(),
{
    if s.len() > 0 {
        lemma_type_all_hidden(m, s.drop_last());
        let m1 = type_all(m, s.drop_last());
        law_plain_key_is_captured(m1, s.last());
        let k = m.hidden.caret as int;
        let t = m.hidden.text;
        assert(m1.hidden.text.insert(m1.hidden.caret as int, s.last()) =~= t.take(k) + s + t.skip(
            k,
        ));
    }
}

/// A paste puts the pasted text into the hidden buffer at the cursor and leaves the cursor
/// right after it, exactly as typing its characters one by one would, and the session goes
/// on.
pub proof fn law_paste_inserts_at_cursor(m: SessionModel, p: String)
    requires
        m.hidden.valid(),
    ensures
        ({
            let (r, outcome) = m.step(InputEvent::Paste(p));
            let k = m.hidden.caret as int;
            &&& outcome is None
            &&& r.hidden.text == m.hidden.text.take(k) + p@ + m.hidden.text.skip(k)
            &&& r.hidden.caret == m.hidden.caret + p@.len()
            &&& r.hidden.text == type_all(m, p@).hidden.text
            &&& r.hidden.caret == type_all(m, p@).hidden.caret
        }),
{
    lemma_type_all_hidden(m, p@);
}

/// Pasting `p` and then typing `s` leaves the same hidden text and cursor as typing `p` and
/// then `s`: what is typed after a paste lands after the pasted text.
pub proof fn law_paste_then_type(m: SessionModel, p: String, s: Seq<char>)
    requires
        m.hidden.valid(),
    ensures
        type_all(m.step(InputEvent::Paste(p)).0, s).hidden.text == type_all(m, p@ + s).hidden.text,
        type_all(m.step(InputEvent::Paste(p)).0, s).hidden.caret == type_all(
            m,
            p@ + s,
        ).hidden.caret,
{
    let m1 = m.step(InputEvent::Paste(p)).0;
    let k = m.hidden.caret as int;
    let t = m.hidden.text;
    law_paste_inserts_at_cursor(m, p);
    lemma_type_all_hidden(m1, s);
    lemma_type_all_hidden(m, p@ + s);
    let k1 = m1.hidden.caret as int;
    assert(m1.hidden.text.take(k1) =~= t.take(k) + p@);
    assert(m1.hidden.text.skip(k1) =~= t.skip(k));
    assert(m1.hidden.text.take(k1) + s + m1.hidden.text.skip(k1) =~= t.take(k) + (p@ + s)
        + t.skip(k));
}

} // verus!
