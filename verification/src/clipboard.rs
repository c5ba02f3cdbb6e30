//! Copying to the clipboard through the terminal (OSC 52).
//!
//! When the viewer runs over SSH or inside tmux, the system clipboard belongs
//! to the wrong machine, if there is one at all. Terminals that support OSC 52
//! copy the base64 payload of `ESC ] 52 ; c ; <data> BEL` into the clipboard
//! of the machine the user is sitting at. This module builds that sequence,
//! and words the status-bar flash that reports which route a yank took.
use vstd::prelude::*;

use vstd::string::StringSliceAdditionalSpecFns;

use crate::session::FlashLevel;
use crate::text::{push_char, push_str};

verus! {

/// The character of the standard base64 alphabet (RFC 4648) for a 6-bit value.
pub open spec fn base64_char(v: nat) -> char {
    if v < 26 {
        ((65 + v) as u8) as char
    } else if v < 52 {
        ((97 + v - 26) as u8) as char
    } else if v < 62 {
        ((48 + v - 52) as u8) as char
    } else if v == 62 {
        '+'
    } else {
        '/'
    }
}

/// Standard base64 (RFC 4648, padded): each group of three bytes becomes four
/// characters; a final group of one or two bytes is padded with `=`.
pub open spec fn base64_text(bytes: Seq<u8>) -> Seq<char>
    decreases bytes.len(),
{
    if bytes.len() == 0 {
        Seq::empty()
    } else if bytes.len() == 1 {
        seq![base64_char(bytes[0] as nat / 4), base64_char((bytes[0] as nat % 4) * 16), '=', '=']
    } else if bytes.len() == 2 {
        seq![
            base64_char(bytes[0] as nat / 4),
            base64_char((bytes[0] as nat % 4) * 16 + bytes[1] as nat / 16),
            base64_char((bytes[1] as nat % 16) * 4),
            '=',
        ]
    } else {
        seq![
            base64_char(bytes[0] as nat / 4),
            base64_char((bytes[0] as nat % 4) * 16 + bytes[1] as nat / 16),
            base64_char((bytes[1] as nat % 16) * 4 + bytes[2] as nat / 64),
            base64_char(bytes[2] as nat % 64),
        ] + base64_text(bytes.skip(3))
    }
}

/// Whether `c` is one of the 64 characters of the standard base64 alphabet.
pub open spec fn is_base64_digit(c: char) -> bool {
    ('A' <= c && c <= 'Z') || ('a' <= c && c <= 'z') || ('0' <= c && c <= '9') || c == '+' || c == '/'
}

/// The 6-bit value of a base64 alphabet character.
pub open spec fn base64_value(c: char) -> nat {
    if 'A' <= c && c <= 'Z' {
        (c as nat - 65) as nat
    } else if 'a' <= c && c <= 'z' {
        (c as nat - 97 + 26) as nat
    } else if '0' <= c && c <= '9' {
        (c as nat - 48 + 52) as nat
    } else if c == '+' {
        62
    } else {
        63
    }
}

/// Standard padded base64 decoding (RFC 4648): each group of four characters
/// gives three bytes, or fewer where the group ends in `=`.
pub open spec fn base64_decoded(text: Seq<char>) -> Seq<u8>
    decreases text.len(),
{
    if text.len() < 4 {
        Seq::empty()
    } else {
        let v0 = base64_value(text[0]);
        let v1 = base64_value(text[1]);
        let v2 = base64_value(text[2]);
        let v3 = base64_value(text[3]);
        let b0 = (v0 * 4 + v1 / 16) as u8;
        let b1 = ((v1 % 16) * 16 + v2 / 4) as u8;
        let b2 = ((v2 % 4) * 64 + v3) as u8;
        let group = if text[2] == '=' {
            seq![b0]
        } else if text[3] == '=' {
            seq![b0, b1]
        } else {
            seq![b0, b1, b2]
        };
        group + base64_decoded(text.skip(4))
    }
}

proof fn lemma_base64_char(v: nat)
    requires
        v < 64,
    ensures
        is_base64_digit(base64_char(v)),
        base64_value(base64_char(v)) == v,
{
}

proof fn lemma_byte_split(b0: nat, b1: nat, b2: nat)
    requires
        b0 < 256,
        b1 < 256,
        b2 < 256,
    ensures
        b0 / 4 < 64,
        (b0 % 4) * 16 + b1 / 16 < 64,
        (b1 % 16) * 4 + b2 / 64 < 64,
        b2 % 64 < 64,
        (b0 / 4) * 4 + ((b0 % 4) * 16 + b1 / 16) / 16 == b0,
        (((b0 % 4) * 16 + b1 / 16) % 16) * 16 + ((b1 % 16) * 4 + b2 / 64) / 4 == b1,
        (((b1 % 16) * 4 + b2 / 64) % 4) * 64 + b2 % 64 == b2,
{
    assert(((b0 % 4) * 16 + b1 / 16) / 16 == b0 % 4) by (nonlinear_arith)
        requires
            b1 < 256,
    ;
    assert(((b0 % 4) * 16 + b1 / 16) % 16 == b1 / 16) by (nonlinear_arith)
        requires
            b1 < 256,
    ;
    assert(((b1 % 16) * 4 + b2 / 64) / 4 == b1 % 16) by (nonlinear_arith)
        requires
            b2 < 256,
    ;
    assert(((b1 % 16) * 4 + b2 / 64) % 4 == b2 / 64) by (nonlinear_arith)
        requires
            b2 < 256,
    ;
}

/// What base64 output looks like: four characters for every three bytes or
/// part of three, all from the alphabet but for `=` padding, and the padding
/// (two `=` after one leftover byte, one after two, none otherwise) only at the
/// end.
pub proof fn lemma_base64_shape(bytes: Seq<u8>)
    ensures
        base64_text(bytes).len() == 4 * ((bytes.len() + 2) / 3),
        forall|k: int|
            0 <= k < base64_text(bytes).len() ==> (is_base64_digit(#[trigger] base64_text(bytes)[k]) || base64_text(
                bytes,
            )[k] == '='),
        forall|k: int|
            0 <= k < base64_text(bytes).len() ==> (#[trigger] base64_text(bytes)[k] == '=' <==> k >= base64_text(
                bytes,
            ).len() - (3 - bytes.len() % 3) % 3),
    decreases bytes.len(),
{
    let text = base64_text(bytes);
    if bytes.len() == 0 {
    } else if bytes.len() == 1 {
        lemma_byte_split(bytes[0] as nat, 0, 0);
        lemma_base64_char(bytes[0] as nat / 4);
        lemma_base64_char((bytes[0] as nat % 4) * 16);
    } else if bytes.len() == 2 {
        lemma_byte_split(bytes[0] as nat, bytes[1] as nat, 0);
        lemma_base64_char(bytes[0] as nat / 4);
        lemma_base64_char((bytes[0] as nat % 4) * 16 + bytes[1] as nat / 16);
        lemma_base64_char((bytes[1] as nat % 16) * 4);
    } else {
        let rest = bytes.skip(3);
        lemma_base64_shape(rest);
        lemma_byte_split(bytes[0] as nat, bytes[1] as nat, bytes[2] as nat);
        let head = seq![
            base64_char(bytes[0] as nat / 4),
            base64_char((bytes[0] as nat % 4) * 16 + bytes[1] as nat / 16),
            base64_char((bytes[1] as nat % 16) * 4 + bytes[2] as nat / 64),
            base64_char(bytes[2] as nat % 64),
        ];
        lemma_base64_char(bytes[0] as nat / 4);
        lemma_base64_char((bytes[0] as nat % 4) * 16 + bytes[1] as nat / 16);
        lemma_base64_char((bytes[1] as nat % 16) * 4 + bytes[2] as nat / 64);
        lemma_base64_char(bytes[2] as nat % 64);
        assert(text =~= head + base64_text(rest));
        assert(rest.len() == bytes.len() - 3);
        assert forall|k: int| 0 <= k < text.len() implies (is_base64_digit(#[trigger] text[k]) || text[k] == '=') && (
        text[k] == '=' <==> k >= text.len() - (3 - bytes.len() % 3) % 3) by {
            if k >= 4 {
                assert(text[k] == base64_text(rest)[k - 4]);
            }
        }
    }
}

/// Decoding what `base64_text` encodes gives back the bytes.
pub proof fn lemma_base64_round_trip(bytes: Seq<u8>)
    ensures
        base64_decoded(base64_text(bytes)) == bytes,
    decreases bytes.len(),
{
    let text = base64_text(bytes);
    if bytes.len() == 0 {
    } else if bytes.len() == 1 {
        lemma_byte_split(bytes[0] as nat, 0, 0);
        lemma_base64_char(bytes[0] as nat / 4);
        lemma_base64_char((bytes[0] as nat % 4) * 16);
        assert(text.skip(4) =~= Seq::<char>::empty());
        assert(base64_decoded(text.skip(4)) == Seq::<u8>::empty());
        let b0 = (base64_value(text[0]) * 4 + base64_value(text[1]) / 16) as u8;
        assert(b0 == bytes[0]);
        assert(base64_decoded(text) =~= seq![b0]);
    } else if bytes.len() == 2 {
        lemma_byte_split(bytes[0] as nat, bytes[1] as nat, 0);
        lemma_base64_char(bytes[0] as nat / 4);
        lemma_base64_char((bytes[0] as nat % 4) * 16 + bytes[1] as nat / 16);
        lemma_base64_char((bytes[1] as nat % 16) * 4);
        assert(text.skip(4) =~= Seq::<char>::empty());
        assert(base64_decoded(text.skip(4)) == Seq::<u8>::empty());
        let v1 = base64_value(text[1]);
        let b0 = (base64_value(text[0]) * 4 + v1 / 16) as u8;
        let b1 = ((v1 % 16) * 16 + base64_value(text[2]) / 4) as u8;
        assert(b0 == bytes[0]);
        assert(b1 == bytes[1]);
        assert(base64_decoded(text) =~= seq![b0, b1]);
    } else {
        let rest = bytes.skip(3);
        lemma_base64_round_trip(rest);
        lemma_byte_split(bytes[0] as nat, bytes[1] as nat, bytes[2] as nat);
        lemma_base64_char(bytes[0] as nat / 4);
        lemma_base64_char((bytes[0] as nat % 4) * 16 + bytes[1] as nat / 16);
        lemma_base64_char((bytes[1] as nat % 16) * 4 + bytes[2] as nat / 64);
        lemma_base64_char(bytes[2] as nat % 64);
        assert(text.skip(4) =~= base64_text(rest));
        assert(bytes =~= seq![bytes[0], bytes[1], bytes[2]] + rest);
        assert(base64_decoded(text) =~= bytes);
    }
}

fn base64_digit(v: u8) -> (c: char)
    requires
        v < 64,
    ensures
        c == base64_char(v as nat),
{
    if v < 26 {
        (65 + v) as char
    } else if v < 52 {
        (97 + v - 26) as char
    } else if v < 62 {
        (48 + v - 52) as char
    } else if v == 62 {
        '+'
    } else {
        '/'
    }
}

/// Standard base64 (RFC 4648, padded).
pub fn base64(bytes: &[u8]) -> (res: String)
    ensures
        res@ == base64_text(bytes@),
{
    let mut out = String::new();
    let mut i: usize = 0;
    assert(bytes@.skip(0) =~= bytes@);
    assert(out@ + base64_text(bytes@) =~= base64_text(bytes@));
    while i < bytes.len()
        invariant
            i <= bytes@.len(),
            out@ + base64_text(bytes@.skip(i as int)) == base64_text(bytes@),
        decreases bytes@.len() - i,
    {
        let ghost before = out@;
        let ghost rest = bytes@.skip(i as int);
        let b0 = bytes[i];
        push_char(&mut out, base64_digit(b0 / 4));
        if i + 1 < bytes.len() {
            let b1 = bytes[i + 1];
            push_char(&mut out, base64_digit((b0 % 4) * 16 + b1 / 16));
            if i + 2 < bytes.len() {
                let b2 = bytes[i + 2];
                push_char(&mut out, base64_digit((b1 % 16) * 4 + b2 / 64));
                push_char(&mut out, base64_digit(b2 % 64));
                assert(rest.skip(3) =~= bytes@.skip(i + 3));
                i = i + 3;
            } else {
                push_char(&mut out, base64_digit((b1 % 16) * 4));
                push_char(&mut out, '=');
                i = i + 2;
                assert(bytes@.skip(i as int) =~= Seq::<u8>::empty());
            }
        } else {
            push_char(&mut out, base64_digit((b0 % 4) * 16));
            push_char(&mut out, '=');
            push_char(&mut out, '=');
            i = i + 1;
            assert(bytes@.skip(i as int) =~= Seq::<u8>::empty());
        }
        assert(out@ + base64_text(bytes@.skip(i as int)) =~= before + base64_text(rest));
    }
    assert(bytes@.skip(i as int) =~= Seq::<u8>::empty());
    assert(out@ =~= out@ + base64_text(bytes@.skip(i as int)));
    out
}

/// The OSC 52 "set clipboard" sequence carrying a payload of `bytes`.
pub open spec fn osc52_text(bytes: Seq<u8>) -> Seq<char> {
    "\x1b]52;c;"@ + base64_text(bytes) + seq!['\x07']
}

/// The OSC 52 "set clipboard" sequence carrying `text`.
pub fn osc52_sequence(text: &str) -> (res: String)
    ensures
        res@ == osc52_text(text.spec_bytes()),
{
    let mut out = String::new();
    push_str(&mut out, "\x1b]52;c;");
    let payload = base64(text.as_bytes());
    push_str(&mut out, payload.as_str());
    push_char(&mut out, '\x07');
    assert(out@ =~= osc52_text(text.spec_bytes()));
    out
}

/// Why the system clipboard could not take a yank.
pub enum ClipboardFailure {
    /// It could not be opened (common over SSH or on Wayland).
    Unavailable(String),
    /// It was open but refused the text.
    Failed(String),
}

/// How a yank went. Over SSH or inside tmux the text goes straight to the
/// terminal as OSC 52; locally the system clipboard is tried first and OSC 52
/// is the fallback.
pub enum YankOutcome {
    /// Remote session: how writing OSC 52 went.
    Terminal(Result<(), String>),
    /// The system clipboard took the text.
    Clipboard,
    /// The clipboard failed, and this is how the OSC 52 fallback went.
    Fallback(ClipboardFailure, Result<(), String>),
}

/// The words for a clipboard failure.
pub open spec fn failure_text(failure: ClipboardFailure) -> Seq<char> {
    match failure {
        ClipboardFailure::Unavailable(error) => "clipboard unavailable: "@ + error@,
        ClipboardFailure::Failed(error) => "clipboard failed: "@ + error@,
    }
}

/// The flash that reports a yank labelled `label`: it names the route taken,
/// since OSC 52 cannot confirm that the text landed. A clipboard that failed
/// before a working fallback is a warning; a yank that reached nothing is a
/// failure.
pub open spec fn yank_flash_view(label: Seq<char>, outcome: YankOutcome) -> (FlashLevel, Seq<char>) {
    match outcome {
        YankOutcome::Terminal(Ok(())) => (FlashLevel::Success, label + " (via terminal, OSC 52)"@),
        YankOutcome::Terminal(Err(error)) => (FlashLevel::Failure, "Yank failed: could not write OSC 52: "@ + error@),
        YankOutcome::Clipboard => (FlashLevel::Success, label + " (clipboard)"@),
        YankOutcome::Fallback(failure, Ok(())) => (
            FlashLevel::Warn,
            label + " (via terminal, OSC 52 \u{2014} "@ + failure_text(failure) + ")"@,
        ),
        YankOutcome::Fallback(failure, Err(error)) => (
            FlashLevel::Failure,
            "Yank failed: "@ + failure_text(failure) + "; OSC 52: "@ + error@,
        ),
    }
}

fn push_failure(out: &mut String, failure: &ClipboardFailure)
    ensures
        final(out)@ == old(out)@ + failure_text(*failure),
{
    match failure {
        ClipboardFailure::Unavailable(error) => {
            push_str(out, "clipboard unavailable: ");
            push_str(out, error.as_str());
        },
        ClipboardFailure::Failed(error) => {
            push_str(out, "clipboard failed: ");
            push_str(out, error.as_str());
        },
    }
    assert(final(out)@ =~= old(out)@ + failure_text(*failure));
}

/// The level and the words of the flash that reports a yank.
pub fn yank_flash(label: &str, outcome: &YankOutcome) -> (res: (FlashLevel, String))
    ensures
        (res.0, res.1@) == yank_flash_view(label@, *outcome),
{
    let mut out = String::new();
    let level = match outcome {
        YankOutcome::Terminal(Ok(())) => {
            push_str(&mut out, label);
            push_str(&mut out, " (via terminal, OSC 52)");
            FlashLevel::Success
        },
        YankOutcome::Terminal(Err(error)) => {
            push_str(&mut out, "Yank failed: could not write OSC 52: ");
            push_str(&mut out, error.as_str());
            FlashLevel::Failure
        },
        YankOutcome::Clipboard => {
            push_str(&mut out, label);
            push_str(&mut out, " (clipboard)");
            FlashLevel::Success
        },
        YankOutcome::Fallback(failure, Ok(())) => {
            push_str(&mut out, label);
            push_str(&mut out, " (via terminal, OSC 52 \u{2014} ");
            push_failure(&mut out, failure);
            push_str(&mut out, ")");
            FlashLevel::Warn
        },
        YankOutcome::Fallback(failure, Err(error)) => {
            push_str(&mut out, "Yank failed: ");
            push_failure(&mut out, failure);
            push_str(&mut out, "; OSC 52: ");
            push_str(&mut out, error.as_str());
            FlashLevel::Failure
        },
    };
    assert((level, out@) =~= yank_flash_view(label@, *outcome));
    (level, out)
}

} // verus!
