use veiltype::clipboard::{
    first_step, next_step, osc52_sequence, provider_chain, Attempt, ClipboardStep, Platform,
    Provider,
};
use veiltype::keys::{KeyCode, KeyEvent, KeyEventKind, KeyModifiers};
use veiltype::fake::{FakeTyper, ProfileKind};
use veiltype::session::{
    diagnostics_text, editor_rows, follow_cursor, InputEvent, Session, SessionStep,
};
use veiltype::text::{char_width, is_control, is_whitespace, str_chars, string_from_chars, utf8_len_within};

#[test]
fn character_classes_agree_with_std() {
    for v in 0u32..=0x10FFFF {
        if let Some(c) = char::from_u32(v) {
            assert_eq!(char_width(c), c.len_utf8(), "width of {v:#x}");
            assert_eq!(is_whitespace(c), c.is_whitespace(), "white space {v:#x}");
            assert_eq!(is_control(c), c.is_control(), "control {v:#x}");
        }
    }
}

#[test]
fn chars_round_trip_through_string() {
    let v = str_chars("a\u{e9}\u{1F600}\n");
    assert_eq!(v, vec!['a', '\u{e9}', '\u{1F600}', '\n']);
    assert_eq!(string_from_chars(&v), "a\u{e9}\u{1F600}\n");
    assert!(utf8_len_within(&v, 8));
    assert!(!utf8_len_within(&v, 7));
}

#[test]
fn osc52_sequence_encodes_in_base64() {
    assert_eq!(osc52_sequence("hello", false), "\x1b]52;c;aGVsbG8=\x07");
    assert_eq!(
        osc52_sequence("hello", true),
        "\x1bPtmux;\x1b\x1b]52;c;aGVsbG8=\x07\x1b\\"
    );
    assert_eq!(osc52_sequence("", false), "\x1b]52;c;\x07");
    assert_eq!(osc52_sequence("ab", false), "\x1b]52;c;YWI=\x07");
    assert_eq!(osc52_sequence("abc", false), "\x1b]52;c;YWJj\x07");
    assert_eq!(osc52_sequence("\u{e9}?>", false), "\x1b]52;c;w6k/Pg==\x07");
}

#[test]
fn provider_chains_per_platform() {
    assert_eq!(provider_chain(Platform::Windows), vec![Provider::ClipboardWin, Provider::Arboard, Provider::It2copy, Provider::Osc52]);
    assert_eq!(provider_chain(Platform::MacOs), vec![Provider::Arboard, Provider::It2copy, Provider::Pbcopy, Provider::Osc52]);
    assert_eq!(
        provider_chain(Platform::Linux),
        vec![Provider::Arboard, Provider::It2copy, Provider::WlCopy, Provider::Xclip, Provider::Xsel, Provider::Osc52]
    );
    assert_eq!(provider_chain(Platform::Other), vec![Provider::Arboard, Provider::It2copy, Provider::Osc52]);
}

#[test]
fn providers_report_names_and_commands() {
    assert_eq!(Provider::Arboard.outcome().provider, "arboard");
    assert!(Provider::Arboard.outcome().verified);
    assert_eq!(Provider::Osc52.outcome().provider, "osc52");
    assert!(!Provider::Osc52.outcome().verified);
    assert_eq!(Provider::WlCopy.name(), "wl-copy");
    assert_eq!(Provider::ClipboardWin.name(), "clipboard-win");
    assert_eq!(Provider::Xclip.command(), Some(("xclip", vec!["-selection", "clipboard"])));
    assert_eq!(Provider::Xsel.command(), Some(("xsel", vec!["--clipboard", "--input"])));
    assert_eq!(Provider::It2copy.command(), Some(("it2copy", vec![])));
    assert_eq!(Provider::Pbcopy.command(), Some(("pbcopy", vec![])));
    assert_eq!(Provider::Arboard.command(), None);
    assert_eq!(Provider::Osc52.command(), None);
}

#[test]
fn steps_fall_through_the_chain() {
    let chain = provider_chain(Platform::Linux);
    assert!(matches!(first_step(&chain), ClipboardStep::Try(Provider::Arboard)));
    assert!(matches!(next_step(&chain, 0, Attempt::Unavailable), ClipboardStep::Try(Provider::It2copy)));
    match next_step(&chain, 3, Attempt::Copied) {
        ClipboardStep::Done(o) => {
            assert_eq!(o.provider, "xclip");
            assert!(o.verified);
        }
        _ => panic!("expected a result"),
    }
    assert!(matches!(next_step(&chain, 2, Attempt::Failed), ClipboardStep::Abort));
    assert!(matches!(next_step(&chain, 5, Attempt::Unavailable), ClipboardStep::Exhausted));
    match next_step(&chain, 5, Attempt::Copied) {
        ClipboardStep::Done(o) => {
            assert_eq!(o.provider, "osc52");
            assert!(!o.verified);
        }
        _ => panic!("expected a result"),
    }
    assert!(matches!(first_step(&vec![]), ClipboardStep::Exhausted));
}

#[test]
fn scrolling_follows_the_cursor() {
    assert_eq!(follow_cursor(0, 3, 10), 0);
    assert_eq!(follow_cursor(5, 3, 10), 3);
    assert_eq!(follow_cursor(0, 12, 10), 3);
    assert_eq!(follow_cursor(2, 11, 10), 2);
    assert_eq!(follow_cursor(2, 12, 10), 3);
    assert_eq!(follow_cursor(4, 9, 1), 9);
}

#[test]
fn diagnostics_change_every_nineteen_characters() {
    assert_eq!(diagnostics_text(0), "0 errors, 0 warnings");
    assert_eq!(diagnostics_text(18), "0 errors, 0 warnings");
    assert_eq!(diagnostics_text(19), "1 warning: dead_code");
    assert_eq!(diagnostics_text(38), "indexing workspace\u{2026}");
    assert_eq!(diagnostics_text(57), "types checked");
    assert_eq!(diagnostics_text(76), "tests cached");
    assert_eq!(diagnostics_text(95), "0 errors, 0 warnings");
}

fn key(code: KeyCode, modifiers: KeyModifiers, kind: KeyEventKind) -> InputEvent {
    InputEvent::Key(KeyEvent { code, modifiers, kind })
}

fn run(session: &mut Session, ev: InputEvent) -> SessionStep {
    assert!(session.fits(&ev));
    session.handle_event(&ev)
}

#[test]
fn session_saves_what_was_typed_and_shows_decoy() {
    let mut s = Session::new(FakeTyper::with_seed(Some(ProfileKind::Go), 5));
    for c in "pass word".chars() {
        let step = run(&mut s, key(KeyCode::Char(c), KeyModifiers::none(), KeyEventKind::Press));
        assert!(matches!(step, SessionStep::Continue));
    }
    run(&mut s, key(KeyCode::Char('x'), KeyModifiers::none(), KeyEventKind::Release));
    run(&mut s, InputEvent::Paste("!\n".to_string()));
    run(&mut s, InputEvent::Other);
    assert_eq!(s.hidden().buffer(), "pass word!\n");
    assert!(!s.decoy().buffer().contains("pass"));
    assert!(veiltype::fake::GO_DECOY.starts_with(s.decoy().buffer()));
    let decoy_before = s.decoy().buffer().to_owned();
    match run(&mut s, key(KeyCode::Char('s'), KeyModifiers::control(), KeyEventKind::Repeat)) {
        SessionStep::Save(text) => assert_eq!(text, "pass word!\n"),
        _ => panic!("expected save"),
    }
    assert_eq!(s.decoy().buffer(), decoy_before);
}

#[test]
fn session_cancels_on_escape() {
    let mut s = Session::new(FakeTyper::with_seed(None, 0));
    run(&mut s, key(KeyCode::Char('a'), KeyModifiers::none(), KeyEventKind::Press));
    assert!(matches!(
        run(&mut s, key(KeyCode::Esc, KeyModifiers::none(), KeyEventKind::Press)),
        SessionStep::Cancelled
    ));
    assert!(matches!(
        run(&mut s, key(KeyCode::Char('q'), KeyModifiers::control(), KeyEventKind::Press)),
        SessionStep::Cancelled
    ));
    assert_eq!(s.hidden().buffer(), "a");
    assert_eq!(s.typer().profile().display_name, "Rust");
}

#[test]
fn editor_rows_number_lines_and_mark_the_cursor() {
    assert_eq!(
        editor_rows(3, 1, 4, 2),
        vec![Some((2, false)), Some((3, true)), None, None]
    );
    assert_eq!(editor_rows(1, 0, 2, 0), vec![Some((1, true)), None]);
    assert_eq!(editor_rows(5, 0, 0, 0), vec![]);
    assert_eq!(editor_rows(2, 4, 2, 0), vec![None, None]);
}
