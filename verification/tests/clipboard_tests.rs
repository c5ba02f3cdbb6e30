use lp_diff::clipboard::{ClipboardFailure, YankOutcome, base64, osc52_sequence, yank_flash};
use lp_diff::session::FlashLevel;

#[test]
fn base64_matches_rfc_4648() {
    // The RFC 4648 test vectors.
    for (input, expected) in
        [("", ""), ("f", "Zg=="), ("fo", "Zm8="), ("foo", "Zm9v"), ("foob", "Zm9vYg=="), ("fooba", "Zm9vYmE="), ("foobar", "Zm9vYmFy")]
    {
        assert_eq!(base64(input.as_bytes()), expected, "base64({input:?})");
    }
    assert_eq!(base64(&[0xff, 0xfe, 0xfd]), "//79");
}

#[test]
fn osc52_wraps_the_payload() {
    assert_eq!(osc52_sequence("x1"), "\x1b]52;c;eDE=\x07");
}

#[test]
fn osc52_encodes_multibyte_text_as_utf8() {
    // "é" is two bytes in UTF-8, 0xc3 0xa9.
    assert_eq!(osc52_sequence("é"), "\x1b]52;c;w6k=\x07");
}

#[test]
fn a_remote_yank_names_the_terminal_route() {
    let (level, message) = yank_flash("Yanked: x1", &YankOutcome::Terminal(Ok(())));
    assert_eq!(level, FlashLevel::Success);
    assert_eq!(message, "Yanked: x1 (via terminal, OSC 52)");
    let (level, message) = yank_flash("Yanked: x1", &YankOutcome::Terminal(Err("broken pipe".to_owned())));
    assert_eq!(level, FlashLevel::Failure);
    assert_eq!(message, "Yank failed: could not write OSC 52: broken pipe");
}

#[test]
fn a_local_yank_reports_the_clipboard_or_the_fallback() {
    assert_eq!(yank_flash("Yanked: c1", &YankOutcome::Clipboard), (FlashLevel::Success, "Yanked: c1 (clipboard)".to_owned()));
    let fallback = YankOutcome::Fallback(ClipboardFailure::Unavailable("no display".to_owned()), Ok(()));
    assert_eq!(
        yank_flash("Yanked: c1", &fallback),
        (FlashLevel::Warn, "Yanked: c1 (via terminal, OSC 52 \u{2014} clipboard unavailable: no display)".to_owned())
    );
    let nothing = YankOutcome::Fallback(ClipboardFailure::Failed("busy".to_owned()), Err("closed".to_owned()));
    assert_eq!(yank_flash("Yanked: c1", &nothing), (FlashLevel::Failure, "Yank failed: clipboard failed: busy; OSC 52: closed".to_owned()));
}

fn decode(text: &str) -> Vec<u8> {
    let value = |c: u8| -> u32 {
        match c {
            b'A'..=b'Z' => u32::from(c - b'A'),
            b'a'..=b'z' => u32::from(c - b'a') + 26,
            b'0'..=b'9' => u32::from(c - b'0') + 52,
            b'+' => 62,
            _ => 63,
        }
    };
    let mut out = Vec::new();
    for group in text.as_bytes().chunks(4) {
        let v: Vec<u32> = group.iter().map(|c| value(*c)).collect();
        out.push((v[0] * 4 + v[1] / 16) as u8);
        if group[2] != b'=' {
            out.push(((v[1] % 16) * 16 + v[2] / 4) as u8);
        }
        if group[3] != b'=' {
            out.push(((v[2] % 4) * 64 + v[3]) as u8);
        }
    }
    out
}

#[test]
fn base64_output_has_the_promised_shape_and_decodes_back() {
    for n in 0..10usize {
        let bytes: Vec<u8> = (0..n).map(|k| (k as u8).wrapping_mul(97).wrapping_add(251)).collect();
        let text = base64(&bytes);
        assert_eq!(text.len(), 4 * n.div_ceil(3));
        let pad = (3 - n % 3) % 3;
        assert!(text.bytes().all(|c| c.is_ascii_alphanumeric() || c == b'+' || c == b'/' || c == b'='));
        assert_eq!(text.bytes().filter(|c| *c == b'=').count(), pad);
        assert!(text.ends_with(&"=".repeat(pad)));
        assert_eq!(decode(&text), bytes);
    }
}
