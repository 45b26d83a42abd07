use veiltype::editor::EditorState;
use veiltype::keys::{KeyCode, KeyEvent, KeyEventKind, KeyModifiers};
use veiltype::fake::{
    language_profile, FakeTyper, ProfileKind, GO_DECOY, LCG_MULTIPLIER, PYTHON_DECOY,
    RUST_DECOY, SEED_MASK, TYPESCRIPT_DECOY,
};

fn press(code: KeyCode, modifiers: KeyModifiers) -> KeyEvent {
    KeyEvent {
        code,
        modifiers,
        kind: KeyEventKind::Press,
    }
}

#[test]
fn emits_decoy_for_char_keys() {
    let mut fake = FakeTyper::new();
    let mut decoy = EditorState::new();
    let input = press(KeyCode::Char('x'), KeyModifiers::none());

    for _ in 0..5 {
        fake.apply_to_decoy(input, &mut decoy);
    }
    assert!(!decoy.buffer().is_empty());
    assert!(!decoy.buffer().contains('x'));
}

#[test]
fn keeps_ctrl_shortcuts_hidden() {
    let mut fake = FakeTyper::new();
    let mut decoy = EditorState::new();
    let input = press(KeyCode::Char('w'), KeyModifiers::control());
    fake.apply_to_decoy(input, &mut decoy);
    assert!(decoy.buffer().is_empty());
}

#[test]
fn ignores_backspace_and_enter() {
    let mut fake = FakeTyper::new();
    let mut decoy = EditorState::new();
    let enter = press(KeyCode::Enter, KeyModifiers::none());
    let backspace = press(KeyCode::Backspace, KeyModifiers::none());

    fake.apply_to_decoy(enter, &mut decoy);
    fake.apply_to_decoy(backspace, &mut decoy);
    assert!(decoy.buffer().is_empty());
}

#[test]
fn paste_advances_decoy() {
    let mut fake = FakeTyper::new();
    let mut decoy = EditorState::new();
    fake.apply_paste_to_decoy("hello\nworld", &mut decoy);
    assert!(!decoy.buffer().is_empty());
}

/// The generator step and the number of characters it types, worked out independently.
fn lcg(x: u64) -> u64 {
    x.wrapping_mul(6364136223846793005).wrapping_add(1)
}

fn burst_len(r: u64) -> usize {
    match r % 100 {
        0..=9 => 0,
        10..=81 => 1,
        _ => 2,
    }
}

#[test]
fn seeded_typer_types_the_tape_in_order() {
    for seed in [0u64, 1, 7, 12345, u64::MAX] {
        let mut fake = FakeTyper::with_seed(Some(ProfileKind::Rust), seed);
        let mut decoy = EditorState::new();
        let mut state = seed ^ 0xA5A5_5A5A_1337_4242;
        let mut typed = 0usize;
        for _ in 0..40 {
            fake.apply_to_decoy(press(KeyCode::Char('q'), KeyModifiers::none()), &mut decoy);
            state = lcg(state);
            typed += burst_len(state);
        }
        let tape: String = RUST_DECOY.chars().filter(|c| *c != '\r').collect();
        let expected: String = tape.chars().take(typed).collect();
        assert_eq!(decoy.buffer(), expected);
        assert_eq!(decoy.cursor(), expected.len());
    }
}

#[test]
fn generator_constants() {
    assert_eq!(LCG_MULTIPLIER, 6364136223846793005);
    assert_eq!(SEED_MASK, 0xA5A5_5A5A_1337_4242);
    assert_eq!(lcg(0), 1);
    assert_eq!(lcg(1), 6364136223846793006);
}

#[test]
fn seed_picks_profile_when_none_is_asked() {
    let expect = [
        ("Rust", "rs"),
        ("TypeScript", "ts"),
        ("Python", "py"),
        ("Go", "go"),
    ];
    for seed in 0u64..8 {
        let fake = FakeTyper::with_seed(None, seed);
        let (name, ext) = expect[(seed % 4) as usize];
        assert_eq!(fake.profile().display_name, name);
        assert_eq!(fake.profile().extension, ext);
    }
    let fake = FakeTyper::with_seed(Some(ProfileKind::Go), 1);
    assert_eq!(fake.profile().file_name, "scheduler.go");
    assert_eq!(fake.profile().decoy_code, GO_DECOY);
}

#[test]
fn profiles_match_their_kind() {
    let p = language_profile(ProfileKind::TypeScript);
    assert_eq!(p.lsp, "tsserver");
    assert_eq!(p.breadcrumb, "packages > app > src > pipeline.ts");
    assert_eq!(p.decoy_code, TYPESCRIPT_DECOY);
    let p = language_profile(ProfileKind::Python);
    assert_eq!(p.file_name, "collector.py");
    assert_eq!(p.decoy_code, PYTHON_DECOY);
    let p = language_profile(ProfileKind::Rust);
    assert_eq!(p.lsp, "rust-analyzer");
}

#[test]
fn decoy_does_not_depend_on_the_typed_character() {
    let mut a = FakeTyper::with_seed(None, 99);
    let mut b = FakeTyper::with_seed(None, 99);
    let mut da = EditorState::new();
    let mut db = EditorState::new();
    for (x, y) in "secret words".chars().zip("zzzzzzzzzzzz".chars()) {
        a.apply_to_decoy(press(KeyCode::Char(x), KeyModifiers::none()), &mut da);
        b.apply_to_decoy(press(KeyCode::Char(y), KeyModifiers::shift()), &mut db);
    }
    assert_eq!(da.buffer(), db.buffer());
    assert!(!da.buffer().contains("secret"));
}

#[test]
fn paste_of_control_codes_changes_nothing() {
    let mut fake = FakeTyper::with_seed(Some(ProfileKind::Python), 3);
    let mut decoy = EditorState::new();
    fake.apply_paste_to_decoy("\u{7f}\u{8}\u{1b}\u{0}\u{85}", &mut decoy);
    assert!(decoy.buffer().is_empty());
    let mut again = FakeTyper::with_seed(Some(ProfileKind::Python), 3);
    let mut other = EditorState::new();
    again.apply_paste_to_decoy("ab", &mut other);
    fake.apply_paste_to_decoy("ab", &mut decoy);
    assert_eq!(decoy.buffer(), other.buffer());
}

#[test]
fn default_typer_works() {
    let mut fake = FakeTyper::default();
    let mut decoy = EditorState::new();
    for _ in 0..20 {
        fake.apply_to_decoy(press(KeyCode::Char('k'), KeyModifiers::none()), &mut decoy);
    }
    let code = fake.profile().decoy_code;
    assert!(code.starts_with(decoy.buffer()));
}

#[test]
fn paste_acts_like_that_many_key_presses() {
    let mut pasting = FakeTyper::with_seed(Some(ProfileKind::Rust), 42);
    let mut typing = FakeTyper::with_seed(Some(ProfileKind::Rust), 42);
    let mut d1 = EditorState::new();
    let mut d2 = EditorState::new();
    let pasted = "x\u{1b}y\n\t\u{7f}zz";
    pasting.apply_paste_to_decoy(pasted, &mut d1);
    for _ in 0..6 {
        typing.apply_to_decoy(press(KeyCode::Char('a'), KeyModifiers::none()), &mut d2);
    }
    assert_eq!(d1.buffer(), d2.buffer());
    assert_eq!(d1.cursor(), d2.cursor());
}
