//! The decoy typer: for each key that would show a character, it types the next characters
//! of a piece of sample code into a decoy buffer instead.
use vstd::prelude::*;

use crate::clock::clock_seed;
use crate::editor::{EditorModel, EditorState};
use crate::editor_laws::law_insert_char_bytes;
use crate::keys::{KeyCode, KeyEvent, KeyModifiers, CONTROL_BIT, SUPER_BIT};
use crate::text::{
    is_control, lemma_take_full_chars, spec_is_control, str_chars, utf8_len,
};

verus! {

/// Code shown while typing under this profile.
pub const RUST_DECOY: &'static str = r#"use std::time::Duration;

pub async fn stream_snapshots(pool: &DbPool) -> anyhow::Result<()> {
    let mut batch = Vec::with_capacity(64);
    let mut tick = tokio::time::interval(Duration::from_millis(250));

    loop {
        tick.tick().await;
        while let Some(job) = pool.dequeue().await? {
            batch.push(job.into_snapshot());
            if batch.len() >= 64 {
                persist_batch(&batch).await?;
                batch.clear();
            }
        }
    }
}
"#;

/// Code shown while typing under this profile.
pub const TYPESCRIPT_DECOY: &'static str = r#"type Frame = { id: string; level: "info" | "warn" | "error" };

export async function flushFrames(frames: Frame[]) {
  const byLevel = new Map<string, number>();
  for (const frame of frames) {
    byLevel.set(frame.level, (byLevel.get(frame.level) ?? 0) + 1);
  }

  await fetch("/api/frames", {
    method: "POST",
    headers: { "content-type": "application/json" },
    body: JSON.stringify({ frames, summary: Object.fromEntries(byLevel) }),
  });
}
"#;

/// Code shown while typing under this profile.
pub const PYTHON_DECOY: &'static str = r#"from dataclasses import dataclass
from datetime import datetime


@dataclass
class Record:
    job_id: str
    created_at: datetime
    payload: dict


def collect(records: list[Record]) -> dict[str, int]:
    totals: dict[str, int] = {"ok": 0, "failed": 0}
    for record in records:
        key = "ok" if record.payload.get("status") == "ok" else "failed"
        totals[key] += 1
    return totals
"#;

/// Code shown while typing under this profile.
pub const GO_DECOY: &'static str = r#"package worker

import "time"

type Scheduler struct {
    every time.Duration
    run   func() error
}

func (s *Scheduler) Start(stop <-chan struct{}) {
    ticker := time.NewTicker(s.every)
    defer ticker.Stop()

    for {
        select {
        case <-stop:
            return
        case <-ticker.C:
            _ = s.run()
        }
    }
}
"#;

/// How a language is presented by the decoy.
#[derive(Debug, Clone, Copy)]
pub struct LanguageProfile {
    pub display_name: &'static str,
    pub extension: &'static str,
    pub file_name: &'static str,
    pub breadcrumb: &'static str,
    pub lsp: &'static str,
    pub decoy_code: &'static str,
}

/// The languages the decoy can pose as.
#[derive(Debug, Clone, Copy, PartialEq, Eq, Structural)]
pub enum ProfileKind {
    Rust,
    TypeScript,
    Python,
    Go,
}

/// The presentation of each language.
pub open spec fn profile_of(kind: ProfileKind) -> LanguageProfile {
    match kind {
        ProfileKind::Rust => LanguageProfile {
            display_name: "Rust",
            extension: "rs",
            file_name: "session.rs",
            breadcrumb: "src > runtime > session.rs",
            lsp: "rust-analyzer",
            decoy_code: RUST_DECOY,
        },
        ProfileKind::TypeScript => LanguageProfile {
            display_name: "TypeScript",
            extension: "ts",
            file_name: "pipeline.ts",
            breadcrumb: "packages > app > src > pipeline.ts",
            lsp: "tsserver",
            decoy_code: TYPESCRIPT_DECOY,
        },
        ProfileKind::Python => LanguageProfile {
            display_name: "Python",
            extension: "py",
            file_name: "collector.py",
            breadcrumb: "services > jobs > collector.py",
            lsp: "pyright",
            decoy_code: PYTHON_DECOY,
        },
        ProfileKind::Go => LanguageProfile {
            display_name: "Go",
            extension: "go",
            file_name: "scheduler.go",
            breadcrumb: "cmd > worker > scheduler.go",
            lsp: "gopls",
            decoy_code: GO_DECOY,
        },
    }
}

/// The presentation of `kind`.
pub fn language_profile(kind: ProfileKind) -> (p: LanguageProfile)
    ensures
        p == profile_of(kind),
{
    match kind {
        ProfileKind::Rust => LanguageProfile {
            display_name: "Rust",
            extension: "rs",
            file_name: "session.rs",
            breadcrumb: "src > runtime > session.rs",
            lsp: "rust-analyzer",
            decoy_code: RUST_DECOY,
        },
        ProfileKind::TypeScript => LanguageProfile {
            display_name: "TypeScript",
            extension: "ts",
            file_name: "pipeline.ts",
            breadcrumb: "packages > app > src > pipeline.ts",
            lsp: "tsserver",
            decoy_code: TYPESCRIPT_DECOY,
        },
        ProfileKind::Python => LanguageProfile {
            display_name: "Python",
            extension: "py",
            file_name: "collector.py",
            breadcrumb: "services > jobs > collector.py",
            lsp: "pyright",
            decoy_code: PYTHON_DECOY,
        },
        ProfileKind::Go => LanguageProfile {
            display_name: "Go",
            extension: "go",
            file_name: "scheduler.go",
            breadcrumb: "cmd > worker > scheduler.go",
            lsp: "gopls",
            decoy_code: GO_DECOY,
        },
    }
}


/// The multiplier of the decoy's pseudo-random generator.
pub const LCG_MULTIPLIER: u64 = 6364136223846793005;

/// What the seed is mixed with.
pub const SEED_MASK: u64 = 0xA5A5_5A5A_1337_4242;

/// The seed used when the clock is before 1970.
pub const FALLBACK_SEED: u64 = 0xC0FFEE;

/// The next state of the generator: multiply, add one, modulo 2^64.
pub open spec fn lcg_next(x: u64) -> u64 {
    ((x as nat * LCG_MULTIPLIER as nat + 1) % 0x1_0000_0000_0000_0000) as u64
}

/// How many decoy characters a roll of the generator types: none one time in ten, one
/// most of the time, two otherwise.
pub open spec fn cadence(r: u64) -> nat {
    let roll = r % 100;
    if roll < 10 {
        0
    } else if roll < 82 {
        1
    } else {
        2
    }
}

/// The profile picked from a seed when none is asked for.
pub open spec fn kind_at(i: u64) -> ProfileKind {
    if i % 4 == 0 {
        ProfileKind::Rust
    } else if i % 4 == 1 {
        ProfileKind::TypeScript
    } else if i % 4 == 2 {
        ProfileKind::Python
    } else {
        ProfileKind::Go
    }
}

/// The decoy code of a profile with carriage returns left out.
pub open spec fn tape_of(kind: ProfileKind) -> Seq<char> {
    profile_of(kind).decoy_code@.filter(|c: char| c != '\r')
}

/// The character typed from position `idx` of the tape; a space when the tape is empty.
pub open spec fn tape_char(tape: Seq<char>, idx: nat) -> char {
    if tape.len() == 0 {
        ' '
    } else {
        tape[(idx % tape.len()) as int]
    }
}

/// The tape position after one character.
pub open spec fn tape_next(tape: Seq<char>, idx: nat) -> nat {
    if tape.len() == 0 {
        idx
    } else {
        (idx + 1) % tape.len()
    }
}

/// The tape position after `n` characters.
pub open spec fn tape_advance(tape: Seq<char>, idx: nat, n: nat) -> nat
    decreases n,
{
    if n == 0 {
        idx
    } else {
        tape_next(tape, tape_advance(tape, idx, (n - 1) as nat))
    }
}

/// The `n` characters typed from position `idx` of the tape, wrapping around at its end.
pub open spec fn tape_run(tape: Seq<char>, idx: nat, n: nat) -> Seq<char>
    decreases n,
{
    if n == 0 {
        Seq::empty()
    } else {
        tape_run(tape, idx, (n - 1) as nat).push(
            tape_char(tape, tape_advance(tape, idx, (n - 1) as nat)),
        )
    }
}

/// A key shows a character: a character key without Control or Super.
pub open spec fn spec_is_visible_key(key: KeyEvent) -> bool {
    &&& key.code is Char
    &&& !key.modifiers.has(CONTROL_BIT)
    &&& !key.modifiers.has(SUPER_BIT)
}

/// Pasted characters that do not advance the decoy: delete, backspace, and control codes
/// other than line feed and tab.
pub open spec fn paste_ignored(ch: char) -> bool {
    ch == '\u{7f}' || ch == '\u{8}' || (spec_is_control(ch) && ch != '\n' && ch != '\t')
}

/// Typing characters one at a time at the cursor of an editor.
pub open spec fn type_chars(d: EditorModel, s: Seq<char>) -> EditorModel {
    if s.len() == 0 {
        d
    } else {
        d.insert_str(s)
    }
}

/// The abstract state of a decoy typer.
pub struct TyperModel {
    pub kind: ProfileKind,
    pub tape: Seq<char>,
    pub idx: nat,
    pub prng: u64,
}

impl TyperModel {
    /// The typer started from a seed.
    pub open spec fn seeded(kind: Option<ProfileKind>, seed: u64) -> TyperModel {
        let k = match kind {
            Some(k) => k,
            None => kind_at(seed),
        };
        TyperModel { kind: k, tape: tape_of(k), idx: 0, prng: seed ^ SEED_MASK }
    }

    /// Characters typed on one visible key stroke.
    pub open spec fn burst(self) -> Seq<char> {
        tape_run(self.tape, self.idx, cadence(lcg_next(self.prng)))
    }

    /// One visible key stroke: the generator advances and the burst is typed into the decoy.
    pub open spec fn stroke(self, d: EditorModel) -> (TyperModel, EditorModel) {
        let n = cadence(lcg_next(self.prng));
        (
            TyperModel {
                kind: self.kind,
                tape: self.tape,
                idx: tape_advance(self.tape, self.idx, n),
                prng: lcg_next(self.prng),
            },
            type_chars(d, tape_run(self.tape, self.idx, n)),
        )
    }

    /// A key press: visible keys make a stroke, others change nothing.
    pub open spec fn key(self, key: KeyEvent, d: EditorModel) -> (TyperModel, EditorModel) {
        if spec_is_visible_key(key) {
            self.stroke(d)
        } else {
            (self, d)
        }
    }

    /// A paste: one stroke per pasted character that is not ignored.
    pub open spec fn paste(self, d: EditorModel, s: Seq<char>) -> (TyperModel, EditorModel)
        decreases s.len(),
    {
        if s.len() == 0 {
            (self, d)
        } else {
            let (t1, d1) = self.paste(d, s.drop_last());
            if paste_ignored(s.last()) {
                (t1, d1)
            } else {
                t1.stroke(d1)
            }
        }
    }
}

/// Types decoy code in place of what is typed.
#[derive(Debug, Clone)]
pub struct FakeTyper {
    kind: ProfileKind,
    tape: Vec<char>,
    idx: usize,
    prng: u64,
}

impl View for FakeTyper {
    type V = TyperModel;

    closed spec fn view(&self) -> TyperModel {
        TyperModel { kind: self.kind, tape: self.tape@, idx: self.idx as nat, prng: self.prng }
    }
}

/// The characters of `code` without carriage returns.
fn tape_from(code: &str) -> (tape: Vec<char>)
    ensures
        tape@ == code@.filter(|c: char| c != '\r'),
{
    let chars = str_chars(code);
    let mut tape: Vec<char> = Vec::new();
    let mut i: usize = 0;
    while i < chars.len()
        invariant
            i <= chars.len(),
            chars@ == code@,
            tape@ == chars@.take(i as int).filter(|c: char| c != '\r'),
        decreases chars.len() - i,
    {
        let c = chars[i];
        proof {
            assert(chars@.take(i + 1) =~= chars@.take(i as int).push(c));
            chars@.take(i as int).lemma_filter_push(c, |c: char| c != '\r');
        }
        if c != '\r' {
            tape.push(c);
        }
        i += 1;
    }
    proof {
        lemma_take_full_chars(chars@);
    }
    tape
}

/// The kind of profile picked by a seed.
fn kind_from_seed(seed: u64) -> (k: ProfileKind)
    ensures
        k == kind_at(seed),
{
    let i: u64 = seed % 4;
    if i == 0 {
        ProfileKind::Rust
    } else if i == 1 {
        ProfileKind::TypeScript
    } else if i == 2 {
        ProfileKind::Python
    } else {
        ProfileKind::Go
    }
}

/// One more character of a run.
proof fn lemma_tape_run_step(tape: Seq<char>, idx: nat, i: nat)
    ensures
        tape_run(tape, idx, i + 1) == tape_run(tape, idx, i).push(
            tape_char(tape, tape_advance(tape, idx, i)),
        ),
        tape_advance(tape, idx, i + 1) == tape_next(tape, tape_advance(tape, idx, i)),
{
}

/// One more character of a stroke.
proof fn lemma_stroke_step(d0: EditorModel, d: EditorModel, tape: Seq<char>, idx: nat, i: nat, c: char)
    requires
        d0.valid(),
        d.valid(),
        d == type_chars(d0, tape_run(tape, idx, i)),
        c == tape_char(tape, tape_advance(tape, idx, i)),
    ensures
        d.insert_char(c) == type_chars(d0, tape_run(tape, idx, i + 1)),
        utf8_len(d.insert_char(c).text) <= utf8_len(d.text) + 4,
{
    lemma_tape_run_step(tape, idx, i);
    lemma_type_chars_push(d0, tape_run(tape, idx, i), c);
    law_insert_char_bytes(d, c);
}

/// Typing one more character after a run of them.
proof fn lemma_type_chars_push(d: EditorModel, s: Seq<char>, c: char)
    requires
        d.valid(),
    ensures
        type_chars(d, s.push(c)) == type_chars(d, s).insert_char(c),
{
    let k = d.caret as int;
    let r = type_chars(d, s);
    if s.len() == 0 {
        assert(d.text.insert(k, c) =~= d.text.take(k) + seq![c] + d.text.skip(k));
        assert(s.push(c) =~= seq![c]);
    } else {
        assert(r.text.insert(r.caret as int, c) =~= d.text.take(k) + s.push(c) + d.text.skip(k));
    }
}

impl FakeTyper {
    /// The tape is the profile's decoy code, and the tape position stays on it.
    pub closed spec fn wf(&self) -> bool {
        &&& self.tape@ == tape_of(self.kind)
        &&& (self.idx < self.tape.len() || self.idx == 0)
    }

    /// A well-formed typer types from its profile's decoy code.
    pub proof fn lemma_tape_is_profile_code(&self)
        requires
            self.wf(),
        ensures
            self@.tape == tape_of(self@.kind),
    {
    }

    /// A typer with a randomly picked profile, seeded from the clock.
    pub fn new() -> (r: Self)
        ensures
            r.wf(),
            exists|seed: u64| r@ == TyperModel::seeded(None, seed),
    {
        Self::with_profile(None)
    }

    /// A typer for `kind`, or a profile picked by the clock; the generator is seeded from the
    /// clock.
    pub fn with_profile(kind: Option<ProfileKind>) -> (r: Self)
        ensures
            r.wf(),
            exists|seed: u64| r@ == TyperModel::seeded(kind, seed),
    {
        let seed = clock_seed(FALLBACK_SEED);
        Self::with_seed(kind, seed)
    }

    /// A typer for `kind`, or for the profile that `seed` picks, with its generator seeded
    /// from `seed`.
    pub fn with_seed(kind: Option<ProfileKind>, seed: u64) -> (r: Self)
        ensures
            r.wf(),
            r@ == TyperModel::seeded(kind, seed),
    {
        let k = match kind {
            Some(k) => k,
            None => kind_from_seed(seed),
        };
        let profile = language_profile(k);
        let tape = tape_from(profile.decoy_code);
        FakeTyper { kind: k, tape, idx: 0, prng: seed ^ SEED_MASK }
    }

    /// How the decoy is presented.
    pub fn profile(&self) -> (p: LanguageProfile)
        ensures
            p == profile_of(self@.kind),
    {
        language_profile(self.kind)
    }

    /// Advances the generator.
    fn next_rand(&mut self) -> (r: u64)
        ensures
            r == lcg_next(old(self).prng),
            final(self)@ == (TyperModel { prng: r, ..old(self)@ }),
            final(self).wf() == old(self).wf(),
    {
        let x = self.prng.wrapping_mul(LCG_MULTIPLIER).wrapping_add(1);
        proof {
            lemma_lcg(self.prng);
        }
        self.prng = x;
        x
    }

    /// How many characters the next stroke types.
    fn next_cadence(&mut self) -> (n: usize)
        ensures
            n == cadence(lcg_next(old(self).prng)),
            n <= 2,
            final(self)@ == (TyperModel { prng: lcg_next(old(self).prng), ..old(self)@ }),
            final(self).wf() == old(self).wf(),
    {
        let roll: u64 = self.next_rand() % 100;
        if roll < 10 {
            0
        } else if roll < 82 {
            1
        } else {
            2
        }
    }

    /// The next character of the tape.
    fn next_visible_char(&mut self) -> (c: char)
        requires
            old(self).wf(),
        ensures
            final(self).wf(),
            c == tape_char(old(self)@.tape, old(self)@.idx),
            final(self)@ == (TyperModel {
                idx: tape_next(old(self)@.tape, old(self)@.idx),
                ..old(self)@
            }),
    {
        if self.tape.len() == 0 {
            return ' ';
        }
        let ch = self.tape[self.idx % self.tape.len()];
        self.idx = (self.idx + 1) % self.tape.len();
        ch
    }

    /// Types one burst of decoy characters into `decoy`.
    fn stroke(&mut self, decoy: &mut EditorState)
        requires
            old(self).wf(),
            old(decoy).wf(),
            utf8_len(old(decoy)@.text) + 8 <= usize::MAX,
        ensures
            final(self).wf(),
            final(decoy).wf(),
            (final(self)@, final(decoy)@) == old(self)@.stroke(old(decoy)@),
            utf8_len(final(decoy)@.text) <= utf8_len(old(decoy)@.text) + 8,
    {
        let ghost t0 = self@;
        let ghost d0 = decoy@;
        let chars_to_emit = self.next_cadence();
        let mut i: usize = 0;
        proof {
            decoy.lemma_view_valid();
            assert(tape_run(t0.tape, t0.idx, 0) =~= Seq::<char>::empty());
        }
        while i < chars_to_emit
            invariant
                i <= chars_to_emit <= 2,
                chars_to_emit == cadence(lcg_next(t0.prng)),
                self.wf(),
                decoy.wf(),
                d0.valid(),
                self.kind == t0.kind,
                self.tape@ == t0.tape,
                self.prng == lcg_next(t0.prng),
                self.idx == tape_advance(t0.tape, t0.idx, i as nat),
                decoy@ == type_chars(d0, tape_run(t0.tape, t0.idx, i as nat)),
                utf8_len(d0.text) + 8 <= usize::MAX,
                utf8_len(decoy@.text) <= utf8_len(d0.text) + 4 * i,
            decreases chars_to_emit - i,
        {
            proof {
                decoy.lemma_view_valid();
            }
            let c = self.next_visible_char();
            proof {
                lemma_stroke_step(d0, decoy@, t0.tape, t0.idx, i as nat, c);
            }
            decoy.insert_char(c);
            i += 1;
        }
    }

    /// Advances the decoy by one key press: a key that would show a character types the next
    /// burst of decoy code; other keys change nothing.
    pub fn apply_to_decoy(&mut self, key: KeyEvent, decoy: &mut EditorState)
        requires
            old(self).wf(),
            old(decoy).wf(),
            utf8_len(old(decoy)@.text) + 8 <= usize::MAX,
        ensures
            final(self).wf(),
            final(decoy).wf(),
            (final(self)@, final(decoy)@) == old(self)@.key(key, old(decoy)@),
    {
        if !is_visible_key(key) {
            return;
        }
        self.stroke(decoy);
    }

    /// Advances the decoy for a paste: one burst per pasted character that is not a control
    /// code (line feed and tab count as typed).
    pub fn apply_paste_to_decoy(&mut self, pasted: &str, decoy: &mut EditorState)
        requires
            old(self).wf(),
            old(decoy).wf(),
            utf8_len(old(decoy)@.text) + 8 * pasted@.len() <= usize::MAX,
        ensures
            final(self).wf(),
            final(decoy).wf(),
            (final(self)@, final(decoy)@) == old(self)@.paste(old(decoy)@, pasted@),
    {
        let ghost t0 = self@;
        let ghost d0 = decoy@;
        let chars = str_chars(pasted);
        let mut i: usize = 0;
        while i < chars.len()
            invariant
                i <= chars.len(),
                chars@ == pasted@,
                self.wf(),
                decoy.wf(),
                (self@, decoy@) == t0.paste(d0, chars@.take(i as int)),
                utf8_len(decoy@.text) + 8 * (chars.len() - i) <= usize::MAX,
            decreases chars.len() - i,
        {
            let ch = chars[i];
            proof {
                assert(chars@.take(i + 1).drop_last() =~= chars@.take(i as int));
            }
            if ch == '\u{7f}' || ch == '\u{8}' {
                i += 1;
                continue;
            }
            if is_control(ch) && ch != '\n' && ch != '\t' {
                i += 1;
                continue;
            }
            self.stroke(decoy);
            i += 1;
        }
        proof {
            lemma_take_full_chars(chars@);
        }
    }
}

impl Default for FakeTyper {
    fn default() -> (r: Self)
        ensures
            r.wf(),
            exists|seed: u64| r@ == TyperModel::seeded(None, seed),
    {
        Self::new()
    }
}

/// Whether a key shows a character.
fn is_visible_key(key: KeyEvent) -> (b: bool)
    ensures
        b == spec_is_visible_key(key),
{
    let is_char = match key.code {
        KeyCode::Char(_) => true,
        _ => false,
    };
    is_char && !key.modifiers.contains(KeyModifiers::control()) && !key.modifiers.contains(
        KeyModifiers::super_key(),
    )
}

/// The generator step computed with wrapping arithmetic.
proof fn lemma_lcg(x: u64)
    ensures
        vstd::wrapping::u64_specs::wrapping_add(
            vstd::wrapping::u64_specs::wrapping_mul(x, LCG_MULTIPLIER),
            1,
        ) == lcg_next(x),
{
    let m = 0x1_0000_0000_0000_0000nat;
    let p = x as nat * LCG_MULTIPLIER as nat;
    vstd::arithmetic::div_mod::lemma_add_mod_noop(p as int, 1, m as int);
    vstd::arithmetic::div_mod::lemma_mod_bound(p as int, m as int);
}

/// A character the typer can produce from `tape`: one of its characters, or a space when it
/// is empty.
pub open spec fn from_tape(tape: Seq<char>, c: char) -> bool {
    if tape.len() == 0 {
        c == ' '
    } else {
        tape.contains(c)
    }
}

/// Every character of `text` is one the typer can produce from `tape`.
pub open spec fn drawn_from(text: Seq<char>, tape: Seq<char>) -> bool {
    forall|i: int| 0 <= i < text.len() ==> from_tape(tape, #[trigger] text[i])
}

proof fn lemma_tape_run_from_tape(tape: Seq<char>, idx: nat, n: nat)
    ensures
        drawn_from(tape_run(tape, idx, n), tape),
        tape_run(tape, idx, n).len() == n,
    decreases n,
{
    if n > 0 {
        lemma_tape_run_from_tape(tape, idx, (n - 1) as nat);
        let j = tape_advance(tape, idx, (n - 1) as nat);
        if tape.len() > 0 {
            let k = (j % tape.len()) as int;
            assert(tape.contains(tape[k]));
        }
        let r = tape_run(tape, idx, n);
        assert forall|i: int| 0 <= i < r.len() implies from_tape(tape, #[trigger] r[i]) by {
            if i < n - 1 {
                assert(r[i] == tape_run(tape, idx, (n - 1) as nat)[i]);
            }
        }
    }
}

/// One stroke types at most two characters, and each is a character of the tape (a space
/// when the tape is empty); the cursor ends right after them.
pub proof fn law_burst_from_tape(t: TyperModel, d: EditorModel)
    requires
        d.valid(),
    ensures
        t.burst().len() <= 2,
        t.burst().len() == cadence(lcg_next(t.prng)),
        drawn_from(t.burst(), t.tape),
        t.stroke(d).1.caret == d.caret + t.burst().len(),
        t.stroke(d).1.text == d.text.take(d.caret as int) + t.burst() + d.text.skip(d.caret as int),
{
    lemma_tape_run_from_tape(t.tape, t.idx, cadence(lcg_next(t.prng)));
    if t.burst().len() == 0 {
        assert(d.text =~= d.text.take(d.caret as int) + t.burst() + d.text.skip(d.caret as int));
    }
}

/// The decoy does not depend on which character was typed: any two keys that both show a
/// character, or both do not, move the typer and the decoy alike.
pub proof fn law_decoy_ignores_typed_char(t: TyperModel, d: EditorModel, k1: KeyEvent, k2: KeyEvent)
    requires
        spec_is_visible_key(k1) == spec_is_visible_key(k2),
    ensures
        t.key(k1, d) == t.key(k2, d),
{
}

/// A decoy that holds only tape characters keeps holding only tape characters after a key
/// press.
pub proof fn law_key_keeps_decoy_drawn_from_tape(t: TyperModel, d: EditorModel, key: KeyEvent)
    requires
        d.valid(),
        drawn_from(d.text, t.tape),
    ensures
        drawn_from(t.key(key, d).1.text, t.key(key, d).0.tape),
        t.key(key, d).1.valid(),
        t.key(key, d).0.tape == t.tape,
{
    if spec_is_visible_key(key) {
        lemma_stroke_keeps_drawn(t, d);
    }
}

proof fn lemma_stroke_keeps_drawn(t: TyperModel, d: EditorModel)
    requires
        d.valid(),
        drawn_from(d.text, t.tape),
    ensures
        drawn_from(t.stroke(d).1.text, t.tape),
        t.stroke(d).1.valid(),
        t.stroke(d).0.tape == t.tape,
{
    law_burst_from_tape(t, d);
    let b = t.burst();
    let k = d.caret as int;
    let r = t.stroke(d).1.text;
    assert forall|i: int| 0 <= i < r.len() implies from_tape(t.tape, #[trigger] r[i]) by {
        if i < k {
            assert(r[i] == d.text[i]);
        } else if i < k + b.len() {
            assert(r[i] == b[i - k]);
        } else {
            assert(r[i] == d.text[i - b.len()]);
        }
    }
}

/// A decoy that holds only tape characters keeps holding only tape characters after a paste.
pub proof fn law_paste_keeps_decoy_drawn_from_tape(t: TyperModel, d: EditorModel, s: Seq<char>)
    requires
        d.valid(),
        drawn_from(d.text, t.tape),
    ensures
        drawn_from(t.paste(d, s).1.text, t.tape),
        t.paste(d, s).1.valid(),
        t.paste(d, s).0.tape == t.tape,
    decreases s.len(),
{
    if s.len() > 0 {
        law_paste_keeps_decoy_drawn_from_tape(t, d, s.drop_last());
        let (t1, d1) = t.paste(d, s.drop_last());
        if !paste_ignored(s.last()) {
            lemma_stroke_keeps_drawn(t1, d1);
        }
    }
}

/// Pasting text made only of ignored characters leaves the typer and the decoy as they were.
pub proof fn law_paste_of_control_codes_changes_nothing(t: TyperModel, d: EditorModel, s: Seq<char>)
    requires
        forall|i: int| 0 <= i < s.len() ==> paste_ignored(#[trigger] s[i]),
    ensures
        t.paste(d, s) == (t, d),
    decreases s.len(),
{
    if s.len() > 0 {
        law_paste_of_control_codes_changes_nothing(t, d, s.drop_last());
    }
}

/// The number of characters of `s` that advance the decoy when pasted.
pub open spec fn typed_count(s: Seq<char>) -> nat
    decreases s.len(),
{
    if s.len() == 0 {
        0
    } else {
        typed_count(s.drop_last()) + if paste_ignored(s.last()) {
            0nat
        } else {
            1nat
        }
    }
}

/// `n` strokes one after the other.
pub open spec fn strokes(t: TyperModel, d: EditorModel, n: nat) -> (TyperModel, EditorModel)
    decreases n,
{
    if n == 0 {
        (t, d)
    } else {
        let (t1, d1) = strokes(t, d, (n - 1) as nat);
        t1.stroke(d1)
    }
}

/// `n` presses of the same key one after the other.
pub open spec fn presses(t: TyperModel, d: EditorModel, key: KeyEvent, n: nat) -> (TyperModel, EditorModel)
    decreases n,
{
    if n == 0 {
        (t, d)
    } else {
        let (t1, d1) = presses(t, d, key, (n - 1) as nat);
        t1.key(key, d1)
    }
}

/// A paste advances the typer and the decoy exactly as many strokes as it has characters
/// that are not ignored: the decoy depends on the pasted text only through that number.
pub proof fn law_paste_is_strokes(t: TyperModel, d: EditorModel, s: Seq<char>)
    ensures
        t.paste(d, s) == strokes(t, d, typed_count(s)),
    decreases s.len(),
{
    if s.len() > 0 {
        law_paste_is_strokes(t, d, s.drop_last());
    }
}

/// Presses of a key that shows a character are strokes; so a paste acts like that many
/// presses of any such key.
pub proof fn law_visible_presses_are_strokes(t: TyperModel, d: EditorModel, key: KeyEvent, n: nat)
    requires
        spec_is_visible_key(key),
    ensures
        presses(t, d, key, n) == strokes(t, d, n),
        t.paste(d, seq![]) == (t, d),
    decreases n,
{
    if n > 0 {
        law_visible_presses_are_strokes(t, d, key, (n - 1) as nat);
    }
}

/// A paste acts like as many presses of a key that shows a character as it has characters
/// that are not ignored.
pub proof fn law_paste_is_presses(t: TyperModel, d: EditorModel, s: Seq<char>, key: KeyEvent)
    requires
        spec_is_visible_key(key),
    ensures
        t.paste(d, s) == presses(t, d, key, typed_count(s)),
{
    law_paste_is_strokes(t, d, s);
    law_visible_presses_are_strokes(t, d, key, typed_count(s));
}

/// With a non-empty tape, the position after `i` characters is the start position plus `i`,
/// wrapped around the tape's length.
proof fn lemma_tape_advance_mod(tape: Seq<char>, idx: nat, i: nat)
    requires
        tape.len() > 0,
        idx < tape.len(),
    ensures
        tape_advance(tape, idx, i) == ((idx + i) as int) % (tape.len() as int),
    decreases i,
{
    let m = tape.len() as int;
    if i == 0 {
        vstd::arithmetic::div_mod::lemma_small_mod(idx, tape.len());
    } else {
        lemma_tape_advance_mod(tape, idx, (i - 1) as nat);
        vstd::arithmetic::div_mod::lemma_add_mod_noop_right(1, idx + i - 1, m);
    }
}

/// The tape is read round and round: after as many characters as it holds the position is
/// back where it started, and after its last character comes its first.
pub proof fn law_tape_wraps(tape: Seq<char>, idx: nat)
    requires
        tape.len() > 0,
        idx < tape.len(),
    ensures
        tape_advance(tape, idx, tape.len()) == idx,
        tape_next(tape, (tape.len() - 1) as nat) == 0,
        idx + 1 < tape.len() ==> tape_next(tape, idx) == idx + 1,
{
    let m = tape.len() as int;
    lemma_tape_advance_mod(tape, idx, tape.len());
    vstd::arithmetic::div_mod::lemma_mod_add_multiples_vanish(idx as int, m);
    vstd::arithmetic::div_mod::lemma_small_mod(idx, tape.len());
    vstd::arithmetic::div_mod::lemma_mod_self_0(m);
    if idx + 1 < tape.len() {
        vstd::arithmetic::div_mod::lemma_small_mod(idx + 1, tape.len());
    }
}

/// Any run typed from a non-empty tape is a stretch of the tape repeated end to end: its
/// `i`-th character is the tape's character at the start position plus `i`, wrapped around.
pub proof fn law_tape_run_cycles(tape: Seq<char>, idx: nat, n: nat)
    requires
        tape.len() > 0,
        idx < tape.len(),
    ensures
        tape_run(tape, idx, n).len() == n,
        forall|i: int|
            0 <= i < n ==> #[trigger] tape_run(tape, idx, n)[i] == tape[(idx + i) % (
            tape.len() as int)],
        tape_advance(tape, idx, n) == ((idx + n) as int) % (tape.len() as int),
    decreases n,
{
    lemma_tape_advance_mod(tape, idx, n);
    if n > 0 {
        law_tape_run_cycles(tape, idx, (n - 1) as nat);
        let j = tape_advance(tape, idx, (n - 1) as nat);
        lemma_tape_advance_mod(tape, idx, (n - 1) as nat);
        vstd::arithmetic::div_mod::lemma_mod_twice(idx + n - 1, tape.len() as int);
        let r = tape_run(tape, idx, n);
        assert forall|i: int| 0 <= i < n implies #[trigger] r[i] == tape[(idx + i) % (
        tape.len() as int)] by {
            if i < n - 1 {
                assert(r[i] == tape_run(tape, idx, (n - 1) as nat)[i]);
            }
        }
    }
}

/// A keystroke on a well-formed typer continues the decoy code where the last one stopped:
/// its characters are the next ones of the code, taken round and round.
pub proof fn law_burst_continues_the_tape(t: TyperModel, d: EditorModel)
    requires
        t.tape.len() > 0,
        t.idx < t.tape.len(),
    ensures
        forall|i: int|
            0 <= i < t.burst().len() ==> #[trigger] t.burst()[i] == t.tape[(t.idx + i) % (
            t.tape.len() as int)],
        t.stroke(d).0.idx == ((t.idx + t.burst().len()) as int) % (t.tape.len() as int),
        t.stroke(d).0.idx < t.tape.len(),
{
    law_tape_run_cycles(t.tape, t.idx, cadence(lcg_next(t.prng)));
}

} // verus!
