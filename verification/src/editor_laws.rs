//! What the editing operations promise together: what undoes what, where the cursor may be,
//! and how vertical moves keep the column.
use vstd::prelude::*;
use vstd::utf8::{encode_utf8, is_char_boundary};

use crate::editor::{skip_space_back, skip_word_back, tab_text, EditorAction, EditorModel};
use crate::keys::{KeyCode, KeyEvent, ALT_BIT, CONTROL_BIT};
use crate::lines::{
    is_line_start, lemma_count_take_mono, lemma_count_take_succ,
    lemma_equal_counts_no_break, lemma_no_break_equal_counts, lemma_line_begin_is_start, lemma_line_finish_at,
    lemma_line_finish_bound, lemma_line_finish_first_break, lemma_line_of_position,
    lemma_line_start_of_props, lemma_within_line, lemma_line_begin_bound, lemma_line_start_bound, line_begin, line_finish, line_start_of,
    nat_min, no_break,
};
use crate::text::{
    lemma_prefix_is_char_boundary, lemma_take_full_chars, lemma_utf8_len_concat,
    lemma_utf8_len_single, lemma_utf8_len_take_le, spec_char_width, spec_is_whitespace,
    utf8_len,
};

verus! {

/// Typing a character and then deleting backwards gives back the text and the cursor.
pub proof fn law_backspace_undoes_insert(m: EditorModel, c: char)
    requires
        m.valid(),
    ensures
        m.insert_char(c).backspace().text == m.text,
        m.insert_char(c).backspace().caret == m.caret,
{
    assert(m.text.insert(m.caret as int, c).remove(m.caret as int) =~= m.text);
}

/// The cursor is always on a character boundary of the text's UTF-8 bytes.
pub proof fn law_cursor_on_char_boundary(m: EditorModel)
    requires
        m.valid(),
    ensures
        vstd::utf8::is_char_boundary(vstd::utf8::encode_utf8(m.text), m.cursor_bytes() as int),
        m.cursor_bytes() <= utf8_len(m.text),
{
    lemma_prefix_is_char_boundary(m.text, m.caret as int);
    lemma_utf8_len_take_le(m.text, m.caret as int);
}

/// Moving left then right, or right then left, returns the cursor where it was, when the
/// first move was possible.
pub proof fn law_left_right_inverse(m: EditorModel)
    requires
        m.valid(),
    ensures
        m.caret > 0 ==> m.move_left().move_right().caret == m.caret,
        m.caret < m.text.len() ==> m.move_right().move_left().caret == m.caret,
{
}

/// Inserting a string moves the cursor by the string's length in bytes.
pub proof fn law_insert_str_bytes(m: EditorModel, s: Seq<char>)
    requires
        m.valid(),
    ensures
        m.insert_str(s).cursor_bytes() == m.cursor_bytes() + utf8_len(s),
        utf8_len(m.insert_str(s).text) == utf8_len(m.text) + utf8_len(s),
{
    let k = m.caret as int;
    let r = m.insert_str(s);
    assert(r.text.take(r.caret as int) =~= m.text.take(k) + s);
    lemma_utf8_len_concat(m.text.take(k), s);
    lemma_utf8_len_concat(m.text.take(k) + s, m.text.skip(k));
    assert(m.text =~= m.text.take(k) + m.text.skip(k));
    lemma_utf8_len_concat(m.text.take(k), m.text.skip(k));
}

/// Typing a character adds its width to the text's byte length.
pub proof fn law_insert_char_bytes(m: EditorModel, c: char)
    requires
        m.valid(),
    ensures
        utf8_len(m.insert_char(c).text) == utf8_len(m.text) + spec_char_width(c),
        m.insert_char(c).valid(),
{
    let k = m.caret as int;
    assert(m.text.insert(k, c) =~= m.text.take(k) + seq![c] + m.text.skip(k));
    assert(m.text =~= m.text.take(k) + m.text.skip(k));
    lemma_utf8_len_concat(m.text.take(k), m.text.skip(k));
    lemma_utf8_len_concat(m.text.take(k), seq![c]);
    lemma_utf8_len_concat(m.text.take(k) + seq![c], m.text.skip(k));
    lemma_utf8_len_single(c);
}

proof fn lemma_skip_space_back(t: Seq<char>, k: nat)
    requires
        k <= t.len(),
    ensures
        skip_space_back(t, k) <= k,
        forall|i: int| skip_space_back(t, k) <= i < k ==> spec_is_whitespace(#[trigger] t[i]),
        skip_space_back(t, k) == 0 || !spec_is_whitespace(t[skip_space_back(t, k) - 1]),
    decreases k,
{
    if k > 0 && spec_is_whitespace(t[k - 1]) {
        lemma_skip_space_back(t, (k - 1) as nat);
    }
}

proof fn lemma_skip_word_back(t: Seq<char>, k: nat)
    requires
        k <= t.len(),
    ensures
        skip_word_back(t, k) <= k,
        forall|i: int| skip_word_back(t, k) <= i < k ==> !spec_is_whitespace(#[trigger] t[i]),
        skip_word_back(t, k) == 0 || spec_is_whitespace(t[skip_word_back(t, k) - 1]),
    decreases k,
{
    if k > 0 && !spec_is_whitespace(t[k - 1]) {
        lemma_skip_word_back(t, (k - 1) as nat);
    }
}

/// Deleting a word removes, right before the cursor, a run of white space and the run of
/// other characters before it, both as long as they go; it removes at least one character
/// and leaves the rest of the text as it was.
pub proof fn law_delete_word_back_shape(m: EditorModel)
    requires
        m.valid(),
        m.caret > 0,
    ensures
        ({
            let r = m.delete_word_back();
            let spaces = skip_space_back(m.text, m.caret);
            &&& r.caret < m.caret
            &&& r.caret <= spaces <= m.caret
            &&& r.text == m.text.take(r.caret as int) + m.text.skip(m.caret as int)
            &&& forall|i: int| r.caret <= i < spaces ==> !spec_is_whitespace(#[trigger] m.text[i])
            &&& forall|i: int| spaces <= i < m.caret ==> spec_is_whitespace(#[trigger] m.text[i])
            &&& (r.caret == 0 || spec_is_whitespace(m.text[r.caret - 1]))
        }),
{
    let t = m.text;
    lemma_skip_space_back(t, m.caret);
    let sp = skip_space_back(t, m.caret);
    lemma_skip_word_back(t, sp);
    if sp == m.caret {
        assert(!spec_is_whitespace(t[m.caret - 1]));
        assert(skip_word_back(t, sp) < sp);
    }
}

/// Moving up from a line other than the first reaches the line above, at the aimed-for
/// column or the end of that line if it is shorter; the aimed-for column is kept.
pub proof fn law_move_up_line(m: EditorModel)
    requires
        m.valid(),
        m.line() >= 1,
    ensures
        m.move_up().line() == m.line() - 1,
        m.move_up().col() == nat_min(
            m.target_col(),
            m.line_len_from(line_start_of(m.text, (m.line() - 1) as nat)),
        ),
        m.move_up().goal == Some(m.target_col()),
        m.move_up().text == m.text,
{
    let t = m.text;
    let n = (m.line() - 1) as nat;
    lemma_count_take_mono(t, m.caret as int, t.len() as int);
    lemma_take_full_chars(t);
    lemma_line_start_of_props(t, n);
    let s = line_start_of(t, n);
    lemma_line_finish_bound(t, s);
    let r = m.move_up();
    lemma_within_line(t, s, r.caret);
}

/// Moving down from a line that has a line after it reaches that line, at the aimed-for
/// column or the end of that line if it is shorter; the aimed-for column is kept.
pub proof fn law_move_down_line(m: EditorModel)
    requires
        m.valid(),
        line_finish(m.text, m.caret) < m.text.len(),
    ensures
        m.move_down().line() == m.line() + 1,
        m.move_down().col() == nat_min(
            m.target_col(),
            m.line_len_from(line_finish(m.text, m.caret) + 1),
        ),
        m.move_down().goal == Some(m.target_col()),
        m.move_down().text == m.text,
{
    let t = m.text;
    let c = m.caret;
    lemma_line_of_position(t, c);
    lemma_line_begin_is_start(t, c);
    let b = line_begin(t, c);
    lemma_line_finish_first_break(t, b);
    lemma_line_finish_first_break(t, c);
    let e = line_finish(t, b);
    lemma_line_finish_bound(t, c);
    lemma_line_finish_at(t, c, line_finish(t, c));
    assert(no_break(t, b as int, line_finish(t, c) as int));
    lemma_line_finish_at(t, b, line_finish(t, c));
    assert(e == line_finish(t, c));
    lemma_within_line(t, b, e);
    lemma_count_take_succ(t, e as int);
    let ns = e + 1;
    assert(is_line_start(t, ns));
    lemma_line_finish_bound(t, ns);
    let r = m.move_down();
    lemma_within_line(t, ns, r.caret);
}

/// With no column kept, moving up and then down returns the cursor to where it was.
pub proof fn law_up_then_down_restores(m: EditorModel)
    requires
        m.valid(),
        m.line() >= 1,
        m.goal is None,
    ensures
        m.move_up().move_down().caret == m.caret,
        m.move_up().move_down().text == m.text,
{
    let t = m.text;
    let c = m.caret;
    let k = m.col();
    law_move_up_line(m);
    let m1 = m.move_up();
    lemma_line_of_position(t, c);
    lemma_line_begin_is_start(t, c);
    let b = line_begin(t, c);
    // the break that ends the line above is the one right before `b`
    lemma_count_take_succ(t, b - 1);
    let n = (m.line() - 1) as nat;
    lemma_count_take_mono(t, c as int, t.len() as int);
    lemma_take_full_chars(t);
    lemma_line_start_of_props(t, n);
    let s0 = line_start_of(t, n);
    if s0 >= b {
        lemma_count_take_mono(t, b as int, s0 as int);
    }
    lemma_count_take_mono(t, s0 as int, (b - 1) as int);
    lemma_equal_counts_no_break(t, s0 as int, b - 1);
    lemma_line_finish_at(t, s0, (b - 1) as nat);
}

/// With no column kept, moving down and then up returns the cursor to where it was.
pub proof fn law_down_then_up_restores(m: EditorModel)
    requires
        m.valid(),
        line_finish(m.text, m.caret) < m.text.len(),
        m.goal is None,
    ensures
        m.move_down().move_up().caret == m.caret,
        m.move_down().move_up().text == m.text,
{
    let t = m.text;
    let c = m.caret;
    law_move_down_line(m);
    lemma_line_of_position(t, c);
    lemma_line_begin_is_start(t, c);
}



/// Inserting two strings one after the other is inserting their concatenation.
pub proof fn law_insert_str_concat(m: EditorModel, s1: Seq<char>, s2: Seq<char>)
    requires
        m.valid(),
    ensures
        m.insert_str(s1).insert_str(s2) == m.insert_str(s1 + s2),
{
    let k = m.caret as int;
    let m1 = m.insert_str(s1);
    assert(m1.text.take(m1.caret as int) =~= m.text.take(k) + s1);
    assert(m1.text.skip(m1.caret as int) =~= m.text.skip(k));
    assert(m1.insert_str(s2).text =~= m.insert_str(s1 + s2).text);
}

/// Each key other than a character key does what the method of the same name does.
pub proof fn law_key_matches_method(m: EditorModel, key: KeyEvent)
    ensures
        key.code == KeyCode::Backspace && !key.modifiers.has(ALT_BIT) ==> m.key_step(key) == (
            m.backspace(),
            EditorAction::Continue,
        ),
        key.code == KeyCode::Backspace && key.modifiers.has(ALT_BIT) ==> m.key_step(key) == (
            m.delete_word_back(),
            EditorAction::Continue,
        ),
        key.code == KeyCode::Delete ==> m.key_step(key) == (m.delete(), EditorAction::Continue),
        key.code == KeyCode::Enter ==> m.key_step(key) == (
            m.insert_char('\n'),
            EditorAction::Continue,
        ),
        key.code == KeyCode::Tab ==> m.key_step(key) == (
            m.insert_str(tab_text()),
            EditorAction::Continue,
        ),
        key.code == KeyCode::Left ==> m.key_step(key) == (m.move_left(), EditorAction::Continue),
        key.code == KeyCode::Right ==> m.key_step(key) == (m.move_right(), EditorAction::Continue),
        key.code == KeyCode::Up ==> m.key_step(key) == (m.move_up(), EditorAction::Continue),
        key.code == KeyCode::Down ==> m.key_step(key) == (m.move_down(), EditorAction::Continue),
        key.code == KeyCode::Home ==> m.key_step(key) == (m.move_home(), EditorAction::Continue),
        key.code == KeyCode::End ==> m.key_step(key) == (m.move_end(), EditorAction::Continue),
        key.code == KeyCode::Esc ==> m.key_step(key) == (m, EditorAction::Cancel),
        key.code == KeyCode::Other ==> m.key_step(key) == (m, EditorAction::Continue),
{
}

/// After any key the cursor still lies within the text and on a character boundary of its
/// UTF-8 bytes.
pub proof fn law_key_keeps_cursor_on_boundary(m: EditorModel, key: KeyEvent)
    requires
        m.valid(),
    ensures
        m.key_step(key).0.valid(),
        is_char_boundary(encode_utf8(m.key_step(key).0.text), m.key_step(key).0.cursor_bytes() as int),
{
    let t = m.text;
    lemma_line_begin_bound(t, m.caret);
    lemma_line_finish_bound(t, m.caret);
    lemma_skip_space_back(t, m.caret);
    lemma_skip_word_back(t, skip_space_back(t, m.caret));
    if m.line() >= 1 {
        let start = line_start_of(t, (m.line() - 1) as nat);
        lemma_line_start_bound(t, (m.line() - 1) as nat);
        lemma_line_finish_bound(t, start);
    }
    let cur_start = line_start_of(t, m.line());
    lemma_line_start_bound(t, m.line());
    lemma_line_finish_bound(t, cur_start);
    let cur_end = line_finish(t, cur_start);
    if cur_end < t.len() {
        lemma_line_finish_bound(t, cur_end + 1);
    }
    law_cursor_on_char_boundary(m.key_step(key).0);
}

/// End keeps the cursor on its line and puts it at that line's end: the cursor moves forward
/// over no line break and stops at a line break or at the end of the text.
pub proof fn law_end_stays_on_line(m: EditorModel)
    requires
        m.valid(),
    ensures
        ({
            let r = m.move_end();
            &&& r.text == m.text
            &&& m.caret <= r.caret <= m.text.len()
            &&& forall|i: int| m.caret <= i < r.caret ==> #[trigger] m.text[i] != '\n'
            &&& (r.caret == m.text.len() || m.text[r.caret as int] == '\n')
            &&& r.line() == m.line()
            &&& r.goal is None
        }),
{
    let t = m.text;
    lemma_line_finish_first_break(t, m.caret);
    lemma_line_finish_bound(t, m.caret);
    lemma_no_break_equal_counts(t, m.caret as int, line_finish(t, m.caret) as int);
}

/// Home keeps the cursor on its line and puts it at that line's start: the cursor moves back
/// over no line break and stops just after a line break or at the start of the text.
pub proof fn law_home_stays_on_line(m: EditorModel)
    requires
        m.valid(),
    ensures
        ({
            let r = m.move_home();
            &&& r.text == m.text
            &&& r.caret <= m.caret
            &&& forall|i: int| r.caret <= i < m.caret ==> #[trigger] m.text[i] != '\n'
            &&& (r.caret == 0 || m.text[r.caret - 1] == '\n')
            &&& r.line() == m.line()
            &&& r.goal is None
        }),
{
    let t = m.text;
    lemma_line_begin_is_start(t, m.caret);
    lemma_no_break_equal_counts(t, line_begin(t, m.caret) as int, m.caret as int);
}

/// Delete before the end of the text removes exactly the character at the cursor, whatever it
/// is (a line break joins two lines), and leaves the cursor where it was; at the end it does
/// nothing.
pub proof fn law_delete_removes_char_at_cursor(m: EditorModel)
    requires
        m.valid(),
    ensures
        m.caret < m.text.len() ==> {
            let r = m.delete();
            &&& r.caret == m.caret
            &&& r.text.len() + 1 == m.text.len()
            &&& r.text.take(m.caret as int) == m.text.take(m.caret as int)
            &&& r.text.skip(m.caret as int) == m.text.skip(m.caret as int + 1)
        },
        m.caret == m.text.len() ==> m.delete().text == m.text && m.delete().caret == m.caret,
{
    if m.caret < m.text.len() {
        let r = m.delete();
        assert(r.text.take(m.caret as int) =~= m.text.take(m.caret as int));
        assert(r.text.skip(m.caret as int) =~= m.text.skip(m.caret as int + 1));
    }
}

/// Typing any character, moving back over it and deleting gives back the text: Delete removes
/// what was typed, line breaks included.
pub proof fn law_delete_undoes_insert(m: EditorModel, c: char)
    requires
        m.valid(),
    ensures
        m.insert_char(c).move_left().delete().text == m.text,
        m.insert_char(c).move_left().delete().caret == m.caret,
{
    assert(m.text.insert(m.caret as int, c).remove(m.caret as int) =~= m.text);
}

/// Ctrl+W and Alt+Backspace are the same word deletion: for any text and cursor (after the
/// start) they remove, right before the cursor, the whole run of white space and then the
/// whole run of other characters before it, and nothing else; they keep the session going.
pub proof fn law_word_delete_keys(m: EditorModel, key: KeyEvent)
    requires
        m.valid(),
        m.caret > 0,
        (key.code == KeyCode::Char('w') && key.modifiers.has(CONTROL_BIT)) || (key.code
            == KeyCode::Backspace && key.modifiers.has(ALT_BIT)),
    ensures
        ({
            let (r, action) = m.key_step(key);
            let spaces = skip_space_back(m.text, m.caret);
            &&& action == EditorAction::Continue
            &&& r.caret < m.caret
            &&& r.text == m.text.take(r.caret as int) + m.text.skip(m.caret as int)
            &&& r.caret == m.caret - (m.text.len() - r.text.len())
            &&& r.caret <= spaces <= m.caret
            &&& forall|i: int| spaces <= i < m.caret ==> spec_is_whitespace(#[trigger] m.text[i])
            &&& (spaces == 0 || !spec_is_whitespace(m.text[spaces - 1]))
            &&& forall|i: int| r.caret <= i < spaces ==> !spec_is_whitespace(#[trigger] m.text[i])
            &&& (r.caret == 0 || spec_is_whitespace(m.text[r.caret - 1]))
        }),
{
    law_delete_word_back_shape(m);
    lemma_skip_space_back(m.text, m.caret);
}

/// Ctrl+W does exactly what Alt+Backspace does, on any text.
pub proof fn law_ctrl_w_is_alt_backspace(m: EditorModel, ctrl_w: KeyEvent, alt_backspace: KeyEvent)
    requires
        ctrl_w.code == KeyCode::Char('w'),
        ctrl_w.modifiers.has(CONTROL_BIT),
        alt_backspace.code == KeyCode::Backspace,
        alt_backspace.modifiers.has(ALT_BIT),
    ensures
        m.key_step(ctrl_w) == m.key_step(alt_backspace),
{
}

} // verus!
