//! Which clipboard providers to try, in which order, and what to report; and the OSC 52
//! escape sequence that asks the terminal itself to set the clipboard.
use vstd::prelude::*;

use base64::Engine;

verus! {

/// Which provider took the text, and whether it is known to have taken it (the terminal
/// escape sequence is sent without any answer).
#[derive(Debug, Clone, Copy)]
pub struct ClipboardOutcome {
    pub provider: &'static str,
    pub verified: bool,
}

/// The operating systems whose clipboard tools differ.
#[derive(Debug, Clone, Copy, PartialEq, Eq, Structural)]
pub enum Platform {
    Windows,
    MacOs,
    Linux,
    Other,
}

/// The ways of setting the clipboard.
#[derive(Debug, Clone, Copy, PartialEq, Eq, Structural)]
pub enum Provider {
    ClipboardWin,
    Arboard,
    It2copy,
    Pbcopy,
    WlCopy,
    Xclip,
    Xsel,
    Osc52,
}

/// What came of trying one provider.
#[derive(Debug, Clone, Copy, PartialEq, Eq, Structural)]
pub enum Attempt {
    /// The provider took the text.
    Copied,
    /// The provider is not there or refused; the next one may be tried.
    Unavailable,
    /// Talking to the provider failed midway; its error ends the copy.
    Failed,
}

/// What to do next.
#[derive(Debug, Clone, Copy)]
pub enum ClipboardStep {
    Try(Provider),
    Done(ClipboardOutcome),
    /// Every provider was unavailable.
    Exhausted,
    /// The last attempt failed; its error is the result.
    Abort,
}

/// The providers for a platform, in the order they are tried.
pub open spec fn chain_of(platform: Platform) -> Seq<Provider> {
    match platform {
        Platform::Windows => seq![
            Provider::ClipboardWin,
            Provider::Arboard,
            Provider::It2copy,
            Provider::Osc52,
        ],
        Platform::MacOs => seq![
            Provider::Arboard,
            Provider::It2copy,
            Provider::Pbcopy,
            Provider::Osc52,
        ],
        Platform::Linux => seq![
            Provider::Arboard,
            Provider::It2copy,
            Provider::WlCopy,
            Provider::Xclip,
            Provider::Xsel,
            Provider::Osc52,
        ],
        Platform::Other => seq![Provider::Arboard, Provider::It2copy, Provider::Osc52],
    }
}

/// The name reported for a provider.
pub open spec fn name_of(p: Provider) -> &'static str {
    match p {
        Provider::ClipboardWin => "clipboard-win",
        Provider::Arboard => "arboard",
        Provider::It2copy => "it2copy",
        Provider::Pbcopy => "pbcopy",
        Provider::WlCopy => "wl-copy",
        Provider::Xclip => "xclip",
        Provider::Xsel => "xsel",
        Provider::Osc52 => "osc52",
    }
}

/// Whether a provider confirms that it took the text.
pub open spec fn verifies(p: Provider) -> bool {
    p != Provider::Osc52
}

/// The outcome reported when `p` took the text.
pub open spec fn outcome_of(p: Provider) -> ClipboardOutcome {
    ClipboardOutcome { provider: name_of(p), verified: verifies(p) }
}

/// The program run for a provider that is a command, and its arguments.
pub open spec fn command_of(p: Provider) -> Option<(&'static str, Seq<&'static str>)> {
    match p {
        Provider::It2copy => Some(("it2copy", Seq::empty())),
        Provider::Pbcopy => Some(("pbcopy", Seq::empty())),
        Provider::WlCopy => Some(("wl-copy", Seq::empty())),
        Provider::Xclip => Some(("xclip", seq!["-selection", "clipboard"])),
        Provider::Xsel => Some(("xsel", seq!["--clipboard", "--input"])),
        _ => None,
    }
}

/// The step after provider number `tried` of `chain` gave `result`.
pub open spec fn step_after(chain: Seq<Provider>, tried: int, result: Attempt) -> ClipboardStep {
    match result {
        Attempt::Copied => ClipboardStep::Done(outcome_of(chain[tried])),
        Attempt::Failed => ClipboardStep::Abort,
        Attempt::Unavailable => if tried + 1 < chain.len() {
            ClipboardStep::Try(chain[tried + 1])
        } else {
            ClipboardStep::Exhausted
        },
    }
}

impl Provider {
    pub fn name(self) -> (r: &'static str)
        ensures
            r == name_of(self),
    {
        match self {
            Provider::ClipboardWin => "clipboard-win",
            Provider::Arboard => "arboard",
            Provider::It2copy => "it2copy",
            Provider::Pbcopy => "pbcopy",
            Provider::WlCopy => "wl-copy",
            Provider::Xclip => "xclip",
            Provider::Xsel => "xsel",
            Provider::Osc52 => "osc52",
        }
    }

    /// The outcome to report when this provider took the text.
    pub fn outcome(self) -> (r: ClipboardOutcome)
        ensures
            r == outcome_of(self),
    {
        let verified = match self {
            Provider::Osc52 => false,
            _ => true,
        };
        ClipboardOutcome { provider: self.name(), verified }
    }

    /// The program to run and its arguments, for the providers that are commands.
    pub fn command(self) -> (r: Option<(&'static str, Vec<&'static str>)>)
        ensures
            match r {
                Some((prog, args)) => command_of(self) == Some((prog, args@)),
                None => command_of(self) is None,
            },
    {
        match self {
            Provider::It2copy => Some(("it2copy", Vec::new())),
            Provider::Pbcopy => Some(("pbcopy", Vec::new())),
            Provider::WlCopy => Some(("wl-copy", Vec::new())),
            Provider::Xclip => {
                let mut args: Vec<&'static str> = Vec::new();
                args.push("-selection");
                args.push("clipboard");
                Some(("xclip", args))
            },
            Provider::Xsel => {
                let mut args: Vec<&'static str> = Vec::new();
                args.push("--clipboard");
                args.push("--input");
                Some(("xsel", args))
            },
            _ => None,
        }
    }
}

/// The providers to try on `platform`, in order.
pub fn provider_chain(platform: Platform) -> (r: Vec<Provider>)
    ensures
        r@ == chain_of(platform),
{
    let mut r: Vec<Provider> = Vec::new();
    match platform {
        Platform::Windows => {
            r.push(Provider::ClipboardWin);
        },
        _ => {},
    }
    r.push(Provider::Arboard);
    r.push(Provider::It2copy);
    match platform {
        Platform::MacOs => {
            r.push(Provider::Pbcopy);
        },
        Platform::Linux => {
            r.push(Provider::WlCopy);
            r.push(Provider::Xclip);
            r.push(Provider::Xsel);
        },
        _ => {},
    }
    r.push(Provider::Osc52);
    assert(r@ =~= chain_of(platform));
    r
}

/// The first step of a copy.
pub fn first_step(chain: &Vec<Provider>) -> (s: ClipboardStep)
    ensures
        s == (if chain.len() > 0 {
            ClipboardStep::Try(chain@[0])
        } else {
            ClipboardStep::Exhausted
        }),
{
    if chain.len() > 0 {
        ClipboardStep::Try(chain[0])
    } else {
        ClipboardStep::Exhausted
    }
}

/// The step after provider number `tried` of `chain` gave `result`: report it when it took
/// the text, stop when it failed, and otherwise go on to the next provider.
pub fn next_step(chain: &Vec<Provider>, tried: usize, result: Attempt) -> (s: ClipboardStep)
    requires
        tried < chain.len(),
    ensures
        s == step_after(chain@, tried as int, result),
{
    match result {
        Attempt::Copied => ClipboardStep::Done(chain[tried].outcome()),
        Attempt::Failed => ClipboardStep::Abort,
        Attempt::Unavailable => {
            if tried + 1 < chain.len() {
                ClipboardStep::Try(chain[tried + 1])
            } else {
                ClipboardStep::Exhausted
            }
        },
    }
}

/// The base64 digit for a value below 64.
pub open spec fn b64_digit(v: int) -> char {
    if v < 26 {
        (65 + v) as char
    } else if v < 52 {
        (97 + v - 26) as char
    } else if v < 62 {
        (48 + v - 52) as char
    } else if v == 62 {
        '+'
    } else {
        '/'
    }
}

/// Standard base64 (RFC 4648, alphabet `A-Z a-z 0-9 + /`, padded with `=`).
pub open spec fn base64_standard(b: Seq<u8>) -> Seq<char>
    decreases b.len(),
{
    if b.len() == 0 {
        Seq::empty()
    } else {
        let x = b[0] as int;
        let y = if b.len() > 1 {
            b[1] as int
        } else {
            0
        };
        let z = if b.len() > 2 {
            b[2] as int
        } else {
            0
        };
        let first = b64_digit(x / 4);
        let second = b64_digit((x % 4) * 16 + y / 16);
        if b.len() == 1 {
            seq![first, second, '=', '=']
        } else if b.len() == 2 {
            seq![first, second, b64_digit((y % 16) * 4), '=']
        } else {
            seq![first, second, b64_digit((y % 16) * 4 + z / 64), b64_digit(z % 64)]
                + base64_standard(b.skip(3))
        }
    }
}

/// `base64::engine::general_purpose::STANDARD.encode`: standard base64 with padding. It
/// panics when the length of the encoding does not fit in `usize`, which `requires` leaves
/// out.
#[verifier::external_body]
fn base64_encode(bytes: &[u8]) -> (s: String)
    requires
        (bytes@.len() + 2) / 3 * 4 <= usize::MAX,
    ensures
        s@ == base64_standard(bytes@),
{
    base64::engine::general_purpose::STANDARD.encode(bytes)
}

/// The OSC 52 request that sets the clipboard to `encoded`, wrapped for tmux when asked.
pub open spec fn osc52_text(encoded: Seq<char>, in_tmux: bool) -> Seq<char> {
    if in_tmux {
        "\x1bPtmux;\x1b\x1b]52;c;"@ + encoded + "\x07\x1b\\"@
    } else {
        "\x1b]52;c;"@ + encoded + "\x07"@
    }
}

/// The escape sequence that asks the terminal to put `contents` in the clipboard; inside
/// tmux it is wrapped so that tmux passes it on.
pub fn osc52_sequence(contents: &str, in_tmux: bool) -> (r: String)
    requires
        (vstd::utf8::encode_utf8(contents@).len() + 2) / 3 * 4 <= usize::MAX,
    ensures
        r@ == osc52_text(base64_standard(vstd::utf8::encode_utf8(contents@)), in_tmux),
{
    let encoded = base64_encode(contents.as_bytes());
    if in_tmux {
        let mut out = String::from_str("\x1bPtmux;\x1b\x1b]52;c;");
        out.append(encoded.as_str());
        out.append("\x07\x1b\\");
        out
    } else {
        let mut out = String::from_str("\x1b]52;c;");
        out.append(encoded.as_str());
        out.append("\x07");
        out
    }
}

/// Every chain ends with the terminal escape sequence, and that is the only provider whose
/// success is not confirmed.
pub proof fn law_chain_ends_with_osc52(platform: Platform)
    ensures
        chain_of(platform).len() >= 3,
        chain_of(platform).last() == Provider::Osc52,
        forall|i: int|
            0 <= i < chain_of(platform).len() - 1 ==> verifies(#[trigger] chain_of(platform)[i]),
{
}

/// A copy reports exactly the provider that took the text; an unavailable provider hands
/// over to the next one, and only after the last one does the copy give up.
pub proof fn law_step_reports_the_provider_that_copied(
    chain: Seq<Provider>,
    tried: int,
    result: Attempt,
)
    requires
        0 <= tried < chain.len(),
    ensures
        result == Attempt::Copied ==> step_after(chain, tried, result) == ClipboardStep::Done(
            outcome_of(chain[tried]),
        ),
        result == Attempt::Unavailable && tried + 1 < chain.len() ==> step_after(
            chain,
            tried,
            result,
        ) == ClipboardStep::Try(chain[tried + 1]),
        step_after(chain, tried, result) is Exhausted <==> (result == Attempt::Unavailable
            && tried + 1 == chain.len()),
{
}

} // verus!
