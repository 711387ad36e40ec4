//! The client's terminal: escape keys typed at it, and the progress bar
//! painted at its top.

use vstd::prelude::*;
use vstd::string::*;
use crate::util::{append_dec, bytes_text, dec, format_bytes, format_throughput, throughput_text};

verus! {

/// Where the client is in typing an escape: `Enter`, then `~`, then a
/// command key.
#[derive(Clone, Copy, Debug, PartialEq, Eq, Structural)]
pub enum EscapeState {
    /// Nothing particular was typed last.
    Normal,
    /// Enter was typed last.
    AfterEnter,
    /// Enter and then `~` were typed last.
    AfterTilde,
}

/// What to do about keys typed at the client's terminal.
#[derive(Debug)]
pub enum KeyAction {
    /// Open the command prompt (F10).
    OpenPrompt,
    /// Leave the client (F12, or Enter `~` `.`).
    Exit,
    /// Show the command prompt in place (Enter `~` `C`).
    ShowPrompt,
    /// Hold the keys back for now.
    Swallow,
    /// Send the keys to the remote terminal.
    Input { data: Vec<u8> },
}

/// The model of a key action.
pub enum KeySpec {
    OpenPrompt,
    Exit,
    ShowPrompt,
    Swallow,
    Input { data: Seq<u8> },
}

impl KeyAction {
    /// The model of this action.
    pub open spec fn spec_of(&self) -> KeySpec {
        match self {
            KeyAction::OpenPrompt => KeySpec::OpenPrompt,
            KeyAction::Exit => KeySpec::Exit,
            KeyAction::ShowPrompt => KeySpec::ShowPrompt,
            KeyAction::Swallow => KeySpec::Swallow,
            KeyAction::Input { data } => KeySpec::Input { data: data@ },
        }
    }
}

/// The key sequence of F10.
pub open spec fn f10_seq() -> Seq<u8> {
    seq![27u8, 91u8, 50u8, 49u8, 126u8]
}

/// The key sequence of F12.
pub open spec fn f12_seq() -> Seq<u8> {
    seq![27u8, 91u8, 50u8, 52u8, 126u8]
}

/// What keys typed in an escape state do, and the state after them.
pub open spec fn keys_spec(state: EscapeState, data: Seq<u8>) -> (EscapeState, KeySpec) {
    if data == f10_seq() {
        (state, KeySpec::OpenPrompt)
    } else if data == f12_seq() {
        (state, KeySpec::Exit)
    } else if data == seq![13u8] {
        (EscapeState::AfterEnter, KeySpec::Input { data })
    } else if state == EscapeState::AfterEnter && data == seq![126u8] {
        (EscapeState::AfterTilde, KeySpec::Swallow)
    } else if state == EscapeState::AfterTilde && data == seq![67u8] {
        (EscapeState::AfterEnter, KeySpec::ShowPrompt)
    } else if state == EscapeState::AfterTilde && data == seq![46u8] {
        (state, KeySpec::Exit)
    } else if state == EscapeState::AfterTilde {
        (EscapeState::Normal, KeySpec::Input { data: seq![126u8] + data })
    } else {
        (EscapeState::Normal, KeySpec::Input { data })
    }
}

fn bytes_are(data: &Vec<u8>, expected: &[u8]) -> (r: bool)
    ensures
        r == (data@ == expected@),
{
    crate::util::bytes_eq(data.as_slice(), expected)
}

/// Decides what keys typed at the terminal do.
pub fn on_keys(state: EscapeState, data: Vec<u8>) -> (r: (EscapeState, KeyAction))
    ensures
        (r.0, r.1.spec_of()) == keys_spec(state, data@),
{
    let f10: [u8; 5] = [27, 91, 50, 49, 126];
    let f12: [u8; 5] = [27, 91, 50, 52, 126];
    let enter: [u8; 1] = [13];
    let tilde: [u8; 1] = [126];
    let key_c: [u8; 1] = [67];
    let dot: [u8; 1] = [46];
    assert(f10@ =~= f10_seq());
    assert(f12@ =~= f12_seq());
    assert(enter@ =~= seq![13u8]);
    assert(tilde@ =~= seq![126u8]);
    assert(key_c@ =~= seq![67u8]);
    assert(dot@ =~= seq![46u8]);
    if bytes_are(&data, &f10) {
        return (state, KeyAction::OpenPrompt);
    }
    if bytes_are(&data, &f12) {
        return (state, KeyAction::Exit);
    }
    if bytes_are(&data, &enter) {
        return (EscapeState::AfterEnter, KeyAction::Input { data });
    }
    if state == EscapeState::AfterEnter && bytes_are(&data, &tilde) {
        return (EscapeState::AfterTilde, KeyAction::Swallow);
    }
    if state == EscapeState::AfterTilde && bytes_are(&data, &key_c) {
        return (EscapeState::AfterEnter, KeyAction::ShowPrompt);
    }
    if state == EscapeState::AfterTilde && bytes_are(&data, &dot) {
        return (state, KeyAction::Exit);
    }
    if state == EscapeState::AfterTilde {
        let mut d2: Vec<u8> = vec![126u8];
        let mut rest = data;
        let ghost rv = rest@;
        d2.append(&mut rest);
        assert(d2@ =~= seq![126u8] + rv);
        return (EscapeState::Normal, KeyAction::Input { data: d2 });
    }
    (EscapeState::Normal, KeyAction::Input { data })
}

/// The progress bar's memory: the progress last painted and the bytes
/// counted since the current file began.
pub struct ProgressState {
    /// The progress last shown, in thousandths.
    pub prev: u64,
    /// The bytes counted since the current file began.
    pub bytes: u64,
}

/// What to do after counting progress.
#[derive(Clone, Copy, Debug, PartialEq, Eq, Structural)]
pub struct ProgressStep {
    /// A new file began: restart the clock.
    pub restart: bool,
    /// The progress changed: paint the bar.
    pub repaint: bool,
}

impl ProgressState {
    /// A progress bar that has shown nothing.
    pub fn new() -> (r: ProgressState)
        ensures
            r.prev == 0,
            r.bytes == 0,
    {
        ProgressState { prev: 0, bytes: 0 }
    }

    /// Counts progress (in thousandths) and bytes just transferred. Progress
    /// going back means a new file began: the count starts again.
    pub fn update(&mut self, progress: u64, bytes: u64) -> (r: ProgressStep)
        requires
            (if progress < old(self).prev {
                0
            } else {
                old(self).bytes as int
            }) + bytes <= u64::MAX,
        ensures
            r.restart == (progress < old(self).prev),
            final(self).bytes == (if r.restart {
                0
            } else {
                old(self).bytes as int
            }) + bytes,
            r.repaint == (progress != old(self).prev),
            final(self).prev == progress,
    {
        let restart = progress < self.prev;
        if restart {
            self.bytes = 0;
        }
        self.bytes = self.bytes + bytes;
        let repaint = progress != self.prev;
        self.prev = progress;
        ProgressStep { restart, repaint }
    }
}

/// The first line of the progress display.
pub open spec fn progress_line_spec(progress: u64, bytes: u64, seconds: u64) -> Seq<char> {
    dec((progress / 10) as nat) + "."@ + dec((progress % 10) as nat) + "%, "@ + bytes_text(bytes as nat) + ", "@
        + dec(seconds as nat) + "s, throughput: "@ + throughput_text(bytes as nat, seconds as nat)
}

/// The first line of the progress display: percentage with one decimal,
/// bytes so far, seconds so far, and the rate.
pub fn progress_line(progress: u64, bytes: u64, seconds: u64) -> (r: String)
    requires
        bytes <= u64::MAX / 10,
    ensures
        r@ == progress_line_spec(progress, bytes, seconds),
{
    let mut s = String::new();
    append_dec(&mut s, progress / 10);
    s.append(".");
    append_dec(&mut s, progress % 10);
    s.append("%, ");
    let b = format_bytes(bytes);
    s.append(b.as_str());
    s.append(", ");
    append_dec(&mut s, seconds);
    s.append("s, throughput: ");
    let t = format_throughput(bytes, seconds);
    s.append(t.as_str());
    proof {
        reveal_strlit(".");
        reveal_strlit("%, ");
        reveal_strlit(", ");
        reveal_strlit("s, throughput: ");
    }
    assert(s@ =~= progress_line_spec(progress, bytes, seconds));
    s
}

/// The bar for a progress in thousandths on a terminal of a given width:
/// `=` over the finished share of the width, its last one turned into `>`
/// while the transfer is unfinished.
pub open spec fn bar_spec(width: u64, progress: u64) -> Seq<char> {
    let pct = progress / 10;
    let n = (width * pct) / 100;
    if n > 0 && pct < 100 {
        Seq::new((n - 1) as nat, |i: int| '=').push('>')
    } else {
        Seq::new(n as nat, |i: int| '=')
    }
}

/// The second line of the progress display.
pub fn progress_bar(width: u64, progress: u64) -> (r: String)
    requires
        width * (progress / 10) <= u64::MAX,
        (width * (progress / 10)) / 100 <= usize::MAX,
    ensures
        r@ == bar_spec(width, progress),
{
    let pct = progress / 10;
    let n = (width * pct) / 100;
    let full: usize = if n > 0 && pct < 100 {
        (n - 1) as usize
    } else {
        n as usize
    };
    let mut s = String::new();
    let mut i: usize = 0;
    while i < full
        invariant
            i <= full,
            s@ == Seq::new(i as nat, |j: int| '='),
        decreases full - i,
    {
        s.append("=");
        proof {
            reveal_strlit("=");
        }
        assert(s@ =~= Seq::new((i + 1) as nat, |j: int| '='));
        i = i + 1;
    }
    if n > 0 && pct < 100 {
        s.append(">");
        proof {
            reveal_strlit(">");
        }
    }
    assert(s@ =~= bar_spec(width, progress));
    s
}

/// The bytes that paint the progress display at the top of the terminal:
/// save the cursor, grey background, clear the first two lines, write the
/// two lines, reset the background and restore the cursor.
pub open spec fn paint_spec(line1: Seq<u8>, bar: Seq<u8>) -> Seq<u8> {
    seq![0x1bu8, 0x5bu8, 0x73u8] + seq![0x1bu8, 0x5bu8, 0x31u8, 0x30u8, 0x30u8, 0x6du8] + seq![
        0x1bu8,
        0x5bu8,
        0x32u8,
        0x3bu8,
        0x31u8,
        0x48u8,
    ] + seq![0x1bu8, 0x5bu8, 0x30u8, 0x4bu8] + seq![0x1bu8, 0x5bu8, 0x31u8, 0x3bu8, 0x31u8, 0x48u8] + seq![
        0x1bu8,
        0x5bu8,
        0x30u8,
        0x4bu8,
    ] + line1 + seq![0x0au8] + bar + seq![0x0au8] + seq![0x1bu8, 0x5bu8, 0x30u8, 0x6du8] + seq![
        0x1bu8,
        0x5bu8,
        0x75u8,
    ]
}

/// Frames the two lines of the progress display for the terminal.
pub fn paint_bytes(line1: &[u8], bar: &[u8]) -> (r: Vec<u8>)
    ensures
        r@ == paint_spec(line1@, bar@),
{
    let mut data: Vec<u8> = Vec::new();
    data.extend_from_slice(&[0x1bu8, 0x5bu8, 0x73u8]);
    data.extend_from_slice(&[0x1bu8, 0x5bu8, 0x31u8, 0x30u8, 0x30u8, 0x6du8]);
    data.extend_from_slice(&[0x1bu8, 0x5bu8, 0x32u8, 0x3bu8, 0x31u8, 0x48u8]);
    data.extend_from_slice(&[0x1bu8, 0x5bu8, 0x30u8, 0x4bu8]);
    data.extend_from_slice(&[0x1bu8, 0x5bu8, 0x31u8, 0x3bu8, 0x31u8, 0x48u8]);
    data.extend_from_slice(&[0x1bu8, 0x5bu8, 0x30u8, 0x4bu8]);
    data.extend_from_slice(line1);
    data.push(0x0au8);
    data.extend_from_slice(bar);
    data.push(0x0au8);
    data.extend_from_slice(&[0x1bu8, 0x5bu8, 0x30u8, 0x6du8]);
    data.extend_from_slice(&[0x1bu8, 0x5bu8, 0x75u8]);
    assert(data@ =~= paint_spec(line1@, bar@));
    data
}

} // verus!
