//! Choosing the colour theme: light or dark from what the terminal reports,
//! monochrome when colour is refused.
use vstd::prelude::*;

use crate::bytes::{find, find_bytes, first_of, first_of_from, split_at_byte, split_bytes};
use crate::text::{chars_of, parse_unsigned, parse_unsigned_chars, sub_chars, trim, trim_chars};

verus! {

/// Theme mode selected via `--theme` or detected from the environment.
#[derive(Debug, Clone, Copy, PartialEq, Eq, Structural)]
pub enum ThemeMode {
    Dark,
    Light,
    /// Monochrome: every colour resolves to the terminal default. Selected
    /// when `NO_COLOR` is set.
    Mono,
}

/// The text after the last `separator`, or all of it when there is none:
/// the first piece `str::rsplit` yields.
pub open spec fn last_piece(s: Seq<char>, separator: char) -> Seq<char>
    decreases s.len(),
{
    if s.len() == 0 {
        s
    } else if s.last() == separator {
        Seq::empty()
    } else {
        last_piece(s.drop_last(), separator).push(s.last())
    }
}

/// The theme a `COLORFGBG` value implies: its last `;`-separated field,
/// trimmed, is the background colour index; 7 and 15 are light, any other
/// index dark, and a field that is not a number from 0 to 255 tells nothing.
pub open spec fn colorfgbg_mode(value: Seq<char>) -> Option<ThemeMode> {
    match parse_unsigned(trim(last_piece(value, ';')), 255) {
        Some(background) => if background == 7 || background == 15 {
            Some(ThemeMode::Light)
        } else {
            Some(ThemeMode::Dark)
        },
        None => None,
    }
}

pub(crate) proof fn lemma_last_piece_at(s: Seq<char>, separator: char, j: int)
    requires
        0 <= j <= s.len(),
        forall|k: int| j <= k < s.len() ==> s[k] != separator,
        j > 0 ==> s[j - 1] == separator,
    ensures
        last_piece(s, separator) == s.subrange(j, s.len() as int),
    decreases s.len(),
{
    if s.len() > j {
        lemma_last_piece_at(s.drop_last(), separator, j);
        assert(s.drop_last().subrange(j, s.len() - 1).push(s.last()) =~= s.subrange(j, s.len() as int));
    } else if s.len() > 0 {
        assert(s.subrange(j, s.len() as int) =~= Seq::<char>::empty());
    } else {
        assert(s.subrange(j, s.len() as int) =~= s);
    }
}

/// Detect the theme mode from a `COLORFGBG` value (format `"<fg>;<bg>"` or
/// `"<fg>;<default>;<bg>"`). Background 7 or 15 means a light terminal.
///
/// Returns `None` when the value is malformed: the variable is advisory only,
/// so callers fall back to dark.
pub fn detect_mode_from_colorfgbg(value: &str) -> (res: Option<ThemeMode>)
    ensures
        res == colorfgbg_mode(value@),
{
    let chars = chars_of(value);
    let mut j: usize = chars.len();
    while j > 0 && chars[j - 1] != ';'
        invariant
            j <= chars@.len(),
            forall|k: int| j <= k < chars@.len() ==> chars@[k] != ';',
        decreases j,
    {
        j = j - 1;
    }
    proof {
        lemma_last_piece_at(chars@, ';', j as int);
    }
    let piece = sub_chars(&chars, j, chars.len());
    let trimmed = trim_chars(&piece);
    match parse_unsigned_chars(&trimmed, 255) {
        Some(background) => if background == 7 || background == 15 {
            Some(ThemeMode::Light)
        } else {
            Some(ThemeMode::Dark)
        },
        None => None,
    }
}

/// The value of a hexadecimal digit byte, if it is one.
pub open spec fn hex_digit(b: u8) -> Option<nat> {
    if 48 <= b <= 57 {
        Some((b - 48) as nat)
    } else if 97 <= b <= 102 {
        Some((b - 87) as nat)
    } else if 65 <= b <= 70 {
        Some((b - 55) as nat)
    } else {
        None
    }
}

/// The value of a run of hexadecimal digits, `None` if any byte is not one.
pub open spec fn hex_value(s: Seq<u8>) -> Option<nat>
    decreases s.len(),
{
    if s.len() == 0 {
        Some(0)
    } else {
        match (hex_value(s.drop_last()), hex_digit(s.last())) {
            (Some(high), Some(low)) => Some(high * 16 + low),
            _ => None,
        }
    }
}

/// Sixteen to the power `n`.
pub open spec fn pow16(n: nat) -> nat
    decreases n,
{
    if n == 0 {
        1
    } else {
        16 * pow16((n - 1) as nat)
    }
}

/// One colour channel of an OSC 11 reply: one to four bytes (an optional `+`
/// then hex digits, as `u32::from_str_radix` reads them), giving its value
/// and the largest value of its width, `16^width - 1`.
pub open spec fn channel(ch: Seq<u8>) -> Option<(nat, nat)> {
    let digits = if ch.len() > 0 && ch[0] == 43u8 { ch.drop_first() } else { ch };
    if ch.len() == 0 || ch.len() > 4 || digits.len() == 0 {
        None
    } else {
        match hex_value(digits) {
            Some(v) => Some((v, (pow16(ch.len()) - 1) as nat)),
            None => None,
        }
    }
}

/// The bytes `]11;rgb:` that introduce the background colour in a reply.
pub open spec fn osc11_prefix() -> Seq<u8> {
    seq![93u8, 49u8, 49u8, 59u8, 114u8, 103u8, 98u8, 58u8]
}

/// Whether channels of these values and maxima make a light colour: the
/// relative luminance `0.2126 r + 0.7152 g + 0.0722 b` of the channels, each
/// scaled to [0, 1] by its own maximum, is above one half (computed exactly).
pub open spec fn is_light(r: nat, rm: nat, g: nat, gm: nat, b: nat, bm: nat) -> bool {
    2126 * r * gm * bm + 7152 * g * rm * bm + 722 * b * rm * gm > 5000 * rm * gm * bm
}

/// The theme a terminal's reply to the OSC 11 background query implies: after
/// the first `]11;rgb:`, up to the first BEL or ESC, exactly three `/`
/// separated channels, read by their luminance. `None` when the reply holds
/// no such colour.
pub open spec fn osc11_mode(reply: Seq<u8>) -> Option<ThemeMode> {
    match find(reply, osc11_prefix()) {
        None => None,
        Some(p) => {
            let rest = reply.skip(p + 8);
            let end = match first_of_from(rest, 7u8, 27u8, 0) {
                Some(e) => e,
                None => rest.len() as int,
            };
            let pieces = split_bytes(rest.take(end), 47u8);
            if pieces.len() != 3 {
                None
            } else {
                match (channel(pieces[0]), channel(pieces[1]), channel(pieces[2])) {
                    (Some((r, rm)), Some((g, gm)), Some((b, bm))) => if is_light(r, rm, g, gm, b, bm) {
                        Some(ThemeMode::Light)
                    } else {
                        Some(ThemeMode::Dark)
                    },
                    _ => None,
                }
            }
        }
    }
}

fn hex_digit_value(b: u8) -> (res: Option<u64>)
    ensures
        res matches Some(v) ==> hex_digit(b) == Some(v as nat),
        res is None ==> hex_digit(b) is None,
{
    if 48 <= b && b <= 57 {
        Some((b - 48) as u64)
    } else if 97 <= b && b <= 102 {
        Some((b - 87) as u64)
    } else if 65 <= b && b <= 70 {
        Some((b - 55) as u64)
    } else {
        None
    }
}

proof fn lemma_hex_value_bound(s: Seq<u8>)
    ensures
        hex_value(s) matches Some(v) ==> v < pow16(s.len()),
    decreases s.len(),
{
    if s.len() > 0 {
        lemma_hex_value_bound(s.drop_last());
        if let (Some(high), Some(low)) = (hex_value(s.drop_last()), hex_digit(s.last())) {
            assert(high * 16 + low < 16 * pow16((s.len() - 1) as nat)) by (nonlinear_arith)
                requires
                    high < pow16((s.len() - 1) as nat),
                    low < 16;
        }
    }
}

fn read_channel(ch: &Vec<u8>) -> (res: Option<(u64, u64)>)
    ensures
        res matches Some((v, m)) ==> channel(ch@) == Some((v as nat, m as nat)) && m <= 65535,
        res is None ==> channel(ch@) is None,
{
    if ch.len() == 0 || ch.len() > 4 {
        return None;
    }
    let start: usize = if ch[0] == 43u8 { 1 } else { 0 };
    let ghost digits = if ch@.len() > 0 && ch@[0] == 43u8 { ch@.drop_first() } else { ch@ };
    assert(digits =~= ch@.skip(start as int));
    if start >= ch.len() {
        return None;
    }
    let mut value: u64 = 0;
    let mut i: usize = start;
    while i < ch.len()
        invariant
            start <= i <= ch@.len(),
            ch@.len() <= 4,
            digits == ch@.skip(start as int),
            digits == (if ch@.len() > 0 && ch@[0] == 43u8 { ch@.drop_first() } else { ch@ }),
            ch@.len() > 0,
            hex_value(digits.take(i - start)) == Some(value as nat),
            value < pow16((i - start) as nat),
            pow16((i - start) as nat) <= 65536,
        decreases ch@.len() - i,
    {
        assert(digits.take(i - start + 1).drop_last() =~= digits.take(i - start));
        assert(digits[i - start] == ch@[i as int]);
        match hex_digit_value(ch[i]) {
            Some(d) => {
                proof {
                    assert(value * 16 + d < 16 * pow16((i - start) as nat)) by (nonlinear_arith)
                        requires
                            value < pow16((i - start) as nat),
                            d < 16;
                    assert(pow16((i - start + 1) as nat) == 16 * pow16((i - start) as nat));
                    if i - start + 1 <= 4 {
                        assert(pow16(0) == 1);
                        assert(pow16(1) == 16);
                        assert(pow16(2) == 256);
                        assert(pow16(3) == 4096);
                        assert(pow16(4) == 65536);
                    }
                }
                value = value * 16 + d;
                i = i + 1;
            },
            None => {
                proof {
                    assert(hex_value(digits.take(i - start + 1)) is None);
                    assert(hex_value(digits) is None) by {
                        lemma_hex_none_extends(digits, i - start + 1);
                    }
                    assert(ch@.len() > 0 && ch@.len() <= 4 && digits.len() > 0);
                    assert(channel(ch@) is None);
                }
                return None;
            },
        }
    }
    assert(digits.take(i - start) =~= digits);
    let width = ch.len();
    let max: u64 = if width == 1 { 15 } else if width == 2 { 255 } else if width == 3 { 4095 } else { 65535 };
    assert(pow16(1) == 16 && pow16(2) == 256 && pow16(3) == 4096 && pow16(4) == 65536) by {
        reveal_with_fuel(pow16, 5);
    }
    Some((value, max))
}

proof fn lemma_hex_none_extends(s: Seq<u8>, i: int)
    requires
        0 <= i <= s.len(),
        hex_value(s.take(i)) is None,
    ensures
        hex_value(s) is None,
    decreases s.len() - i,
{
    if i < s.len() {
        assert(s.take(i + 1).drop_last() =~= s.take(i));
        lemma_hex_none_extends(s, i + 1);
    } else {
        assert(s.take(i) =~= s);
    }
}

/// Detect the theme mode from a terminal's reply to the OSC 11 background
/// colour query, `ESC ] 11 ; rgb:RRRR/GGGG/BBBB` ended by BEL or ST.
///
/// Each channel may carry one to four hex digits; it is scaled to [0, 1] by
/// its own width. A relative luminance above one half means a light
/// background. `None` when the reply holds no such colour.
pub fn detect_mode_from_osc11(reply: &[u8]) -> (res: Option<ThemeMode>)
    ensures
        res == osc11_mode(reply@),
{
    let prefix: Vec<u8> = vec![93u8, 49u8, 49u8, 59u8, 114u8, 103u8, 98u8, 58u8];
    assert(prefix@ =~= osc11_prefix());
    let p = match find_bytes(reply, prefix.as_slice()) {
        Some(p) => p,
        None => return None,
    };
    proof {
        crate::bytes::lemma_find_occurs(reply@, osc11_prefix());
    }
    let reply_len = reply.len();
    assert(p + 8 <= reply_len);
    let ghost rest = reply@.skip(p + 8);
    let mut rest_vec: Vec<u8> = Vec::new();
    let mut i: usize = p + 8;
    while i < reply.len()
        invariant
            p + 8 <= i <= reply@.len(),
            rest == reply@.skip(p + 8),
            rest_vec@ == reply@.subrange(p + 8, i as int),
        decreases reply@.len() - i,
    {
        rest_vec.push(reply[i]);
        i = i + 1;
        assert(rest_vec@ =~= reply@.subrange(p + 8, i as int));
    }
    assert(rest_vec@ =~= rest);
    let end: usize = match first_of(rest_vec.as_slice(), 7u8, 27u8) {
        Some(e) => e,
        None => rest_vec.len(),
    };
    proof {
        if let Some(e) = first_of_from(rest, 7u8, 27u8, 0) {
            lemma_first_of_in_range(rest, 7u8, 27u8, 0);
        }
    }
    let mut body: Vec<u8> = Vec::new();
    let mut k: usize = 0;
    while k < end
        invariant
            k <= end,
            end <= rest_vec@.len(),
            body@ == rest_vec@.take(k as int),
        decreases end - k,
    {
        body.push(rest_vec[k]);
        k = k + 1;
        assert(body@ =~= rest_vec@.take(k as int));
    }
    let pieces = split_at_byte(body.as_slice(), 47u8);
    if pieces.len() != 3 {
        return None;
    }
    let red = read_channel(&pieces[0]);
    let green = read_channel(&pieces[1]);
    let blue = read_channel(&pieces[2]);
    match (red, green, blue) {
        (Some((r, rm)), Some((g, gm)), Some((b, bm))) => {
            let (r, rm, g, gm, b, bm) = (r as u128, rm as u128, g as u128, gm as u128, b as u128, bm as u128);
            proof {
                lemma_channel_bounds(pieces@[0]@);
                lemma_channel_bounds(pieces@[1]@);
                lemma_channel_bounds(pieces@[2]@);
                assert(2126 * r * gm * bm <= 2126 * 65535 * 65535 * 65535) by (nonlinear_arith)
                    requires r <= 65535, gm <= 65535, bm <= 65535;
                assert(7152 * g * rm * bm <= 7152 * 65535 * 65535 * 65535) by (nonlinear_arith)
                    requires g <= 65535, rm <= 65535, bm <= 65535;
                assert(722 * b * rm * gm <= 722 * 65535 * 65535 * 65535) by (nonlinear_arith)
                    requires b <= 65535, rm <= 65535, gm <= 65535;
                assert(5000 * rm * gm * bm <= 5000 * 65535 * 65535 * 65535) by (nonlinear_arith)
                    requires rm <= 65535, gm <= 65535, bm <= 65535;
            }
            let max3: u128 = 65535 * 65535 * 65535;
            proof {
                assert(r * gm <= 65535 * 65535) by (nonlinear_arith) requires r <= 65535, gm <= 65535;
                assert(r * gm * bm <= max3) by (nonlinear_arith) requires r * gm <= 65535 * 65535, bm <= 65535, max3 == 65535 * 65535 * 65535;
                assert(g * rm <= 65535 * 65535) by (nonlinear_arith) requires g <= 65535, rm <= 65535;
                assert(g * rm * bm <= max3) by (nonlinear_arith) requires g * rm <= 65535 * 65535, bm <= 65535, max3 == 65535 * 65535 * 65535;
                assert(b * rm <= 65535 * 65535) by (nonlinear_arith) requires b <= 65535, rm <= 65535;
                assert(b * rm * gm <= max3) by (nonlinear_arith) requires b * rm <= 65535 * 65535, gm <= 65535, max3 == 65535 * 65535 * 65535;
                assert(rm * gm <= 65535 * 65535) by (nonlinear_arith) requires rm <= 65535, gm <= 65535;
                assert(rm * gm * bm <= max3) by (nonlinear_arith) requires rm * gm <= 65535 * 65535, bm <= 65535, max3 == 65535 * 65535 * 65535;
            }
            let red_term = 2126 * (r * gm * bm);
            let green_term = 7152 * (g * rm * bm);
            let blue_term = 722 * (b * rm * gm);
            let half = 5000 * (rm * gm * bm);
            proof {
                assert(red_term == 2126 * r * gm * bm) by (nonlinear_arith) requires red_term == 2126 * (r * gm * bm);
                assert(green_term == 7152 * g * rm * bm) by (nonlinear_arith) requires green_term == 7152 * (g * rm * bm);
                assert(blue_term == 722 * b * rm * gm) by (nonlinear_arith) requires blue_term == 722 * (b * rm * gm);
                assert(half == 5000 * rm * gm * bm) by (nonlinear_arith) requires half == 5000 * (rm * gm * bm);
            }
            if red_term + green_term + blue_term > half {
                Some(ThemeMode::Light)
            } else {
                Some(ThemeMode::Dark)
            }
        },
        _ => None,
    }
}

proof fn lemma_first_of_in_range(s: Seq<u8>, a: u8, b: u8, from: int)
    ensures
        first_of_from(s, a, b, from) matches Some(e) ==> from <= e < s.len(),
    decreases s.len() - from,
{
    if from >= 0 && from < s.len() && !(s[from] == a || s[from] == b) {
        lemma_first_of_in_range(s, a, b, from + 1);
    }
}

proof fn lemma_channel_bounds(ch: Seq<u8>)
    ensures
        channel(ch) matches Some((v, m)) ==> v <= m && m <= 65535,
{
    let digits = if ch.len() > 0 && ch[0] == 43u8 { ch.drop_first() } else { ch };
    lemma_hex_value_bound(digits);
    assert(pow16(0) == 1);
    assert(pow16(1) == 16);
    assert(pow16(2) == 256);
    assert(pow16(3) == 4096);
    assert(pow16(4) == 65536);
    if ch.len() >= 1 && ch.len() <= 4 && digits.len() > 0 {
        assert(pow16(digits.len()) <= pow16(ch.len()));
    }
}

/// Whether a terminal's replies hold the answer to the device attributes
/// request that follows the background query: an `ESC [ ?` with a `c`
/// somewhere after it. Its arrival ends the wait for the background colour.
pub open spec fn reply_complete_spec(reply: Seq<u8>) -> bool {
    match find(reply, seq![27u8, 91u8, 63u8]) {
        Some(start) => exists|k: int| start <= k < reply.len() && reply[k] == 99u8,
        None => false,
    }
}

/// Whether the device attributes reply (`ESC [ ? ... c`) has arrived, which
/// ends the exchange with the terminal.
pub fn reply_complete(reply: &[u8]) -> (res: bool)
    ensures
        res == reply_complete_spec(reply@),
{
    let marker: Vec<u8> = vec![27u8, 91u8, 63u8];
    assert(marker@ =~= seq![27u8, 91u8, 63u8]);
    let start = match find_bytes(reply, marker.as_slice()) {
        Some(start) => start,
        None => return false,
    };
    let mut k: usize = start;
    while k < reply.len()
        invariant
            start <= k <= reply@.len(),
            forall|m: int| start <= m < k ==> reply@[m] != 99u8,
            find(reply@, seq![27u8, 91u8, 63u8]) == Some(start as int),
        decreases reply@.len() - k,
    {
        if reply[k] == 99u8 {
            assert(start <= k < reply@.len() && reply@[k as int] == 99u8);
            assert(exists|m: int| start <= m < reply@.len() && reply@[m] == 99u8);
            return true;
        }
        k = k + 1;
    }
    false
}

/// The `--theme` argument: detect, or force a palette.
#[derive(Debug, Clone, Copy, PartialEq, Eq, Structural)]
pub enum ThemeArg {
    /// Detect from `COLORFGBG`, falling back to dark.
    Auto,
    Dark,
    Light,
}

impl ThemeArg {
    /// Resolve to a concrete theme mode. An explicit choice wins; otherwise a
    /// set `NO_COLOR` forces monochrome, and `COLORFGBG` (when present and
    /// readable) picks light or dark, dark by default.
    pub fn resolve(self, no_color: bool, colorfgbg: Option<&str>) -> (res: ThemeMode)
        ensures
            self == ThemeArg::Dark ==> res == ThemeMode::Dark,
            self == ThemeArg::Light ==> res == ThemeMode::Light,
            self == ThemeArg::Auto && no_color ==> res == ThemeMode::Mono,
            self == ThemeArg::Auto && !no_color ==> res == match colorfgbg {
                Some(value) => match colorfgbg_mode(value@) {
                    Some(mode) => mode,
                    None => ThemeMode::Dark,
                },
                None => ThemeMode::Dark,
            },
    {
        match self {
            ThemeArg::Dark => ThemeMode::Dark,
            ThemeArg::Light => ThemeMode::Light,
            ThemeArg::Auto => {
                if no_color {
                    return ThemeMode::Mono;
                }
                match colorfgbg {
                    Some(value) => match detect_mode_from_colorfgbg(value) {
                        Some(mode) => mode,
                        None => ThemeMode::Dark,
                    },
                    None => ThemeMode::Dark,
                }
            },
        }
    }
}

} // verus!
