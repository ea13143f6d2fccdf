//! The `#rrggbb` text form of a color: writing three bytes as lowercase hex,
//! and reading the three channels back from a hex text.

use vstd::prelude::*;
use vstd::string::StringSliceAdditionalSpecFns;
use vstd::utf8::{is_ascii_chars, is_ascii_chars_encode_utf8};
use crate::buffer::{buffer_text, empty_buffer, push_ascii};
use crate::quantize::{channel_byte, nearest_thousandths, lemma_byte_survives_thousandths, lemma_quantize_nearest, quantize_channel};

verus! {

/// The lowercase hex digit for a value in `[0, 16)`.
pub open spec fn hex_digit_char(d: int) -> char {
    if d < 10 {
        (48 + d) as char
    } else {
        (87 + d) as char
    }
}

/// The seven characters `#rrggbb` for three bytes.
pub open spec fn hex_text(r: int, g: int, b: int) -> Seq<char> {
    seq![
        '#',
        hex_digit_char(r / 16),
        hex_digit_char(r % 16),
        hex_digit_char(g / 16),
        hex_digit_char(g % 16),
        hex_digit_char(b / 16),
        hex_digit_char(b % 16),
    ]
}

fn hex_digit(d: u8) -> (c: char)
    requires
        d < 16,
    ensures
        c == hex_digit_char(d as int),
        c <= '\u{7f}',
{
    if d < 10 {
        (48u8 + d) as char
    } else {
        (87u8 + d) as char
    }
}

/// Writes three bytes as the seven characters `#rrggbb`, in lowercase hex.
pub fn bytes_to_hex(r: u8, g: u8, b: u8) -> (s: heapless::String<7>)
    ensures
        buffer_text(s) == hex_text(r as int, g as int, b as int),
{
    let ghost t = hex_text(r as int, g as int, b as int);
    let mut s = empty_buffer();
    let _ = push_ascii(&mut s, '#');
    let _ = push_ascii(&mut s, hex_digit(r / 16));
    let _ = push_ascii(&mut s, hex_digit(r % 16));
    let _ = push_ascii(&mut s, hex_digit(g / 16));
    let _ = push_ascii(&mut s, hex_digit(g % 16));
    let _ = push_ascii(&mut s, hex_digit(b / 16));
    let _ = push_ascii(&mut s, hex_digit(b % 16));
    assert(buffer_text(s) =~= t);
    s
}

/// Writes a color whose channels are given in thousandths of full scale as
/// `#rrggbb`: each channel is clamped to the display range and quantized to
/// the nearest byte first.
pub fn thousandths_to_hex(r: i64, g: i64, b: i64) -> (s: heapless::String<7>)
    ensures
        buffer_text(s) == hex_text(
            channel_byte(r as int),
            channel_byte(g as int),
            channel_byte(b as int),
        ),
{
    bytes_to_hex(quantize_channel(r), quantize_channel(g), quantize_channel(b))
}

/// The value of an ASCII hex digit, in either case.
pub open spec fn digit_value(c: u8) -> Option<int> {
    if 48 <= c <= 57 {
        Some(c - 48)
    } else if 97 <= c <= 102 {
        Some(c - 87)
    } else if 65 <= c <= 70 {
        Some(c - 55)
    } else {
        None
    }
}

/// A two-byte field read in base 16 the way Rust reads a signed integer: two
/// hex digits, or a sign (`+` or `-`) and one hex digit. Any other field reads
/// as zero.
pub open spec fn field_value(hi: u8, lo: u8) -> int {
    match (digit_value(hi), digit_value(lo)) {
        (Some(h), Some(l)) => 16 * h + l,
        (None, Some(l)) => if hi == 43 {
            l
        } else if hi == 45 {
            -l
        } else {
            0
        },
        _ => 0,
    }
}

/// The text left once one leading `#`, if there is one, is taken off.
pub open spec fn strip_hash(s: Seq<u8>) -> Seq<u8> {
    if s.len() > 0 && s[0] == 35 {
        s.drop_first()
    } else {
        s
    }
}

/// The three channels that a hex text stands for. Once one leading `#` is
/// taken off, a text of six bytes gives one channel for each pair of
/// bytes; a text of any other length stands for black.
pub open spec fn hex_channels_of(raw: Seq<u8>) -> (int, int, int) {
    let h = strip_hash(raw);
    if h.len() != 6 {
        (0, 0, 0)
    } else {
        (field_value(h[0], h[1]), field_value(h[2], h[3]), field_value(h[4], h[5]))
    }
}

fn digit(c: u8) -> (r: Option<i64>)
    ensures
        r is Some <==> digit_value(c) is Some,
        r is Some ==> r->0 as int == digit_value(c)->0,
{
    if 48 <= c && c <= 57 {
        Some((c - 48) as i64)
    } else if 97 <= c && c <= 102 {
        Some((c - 87) as i64)
    } else if 65 <= c && c <= 70 {
        Some((c - 55) as i64)
    } else {
        None
    }
}

fn field(hi: u8, lo: u8) -> (r: i64)
    ensures
        r as int == field_value(hi, lo),
{
    match (digit(hi), digit(lo)) {
        (Some(h), Some(l)) => 16 * h + l,
        (None, Some(l)) => if hi == 43 {
            l
        } else if hi == 45 {
            -l
        } else {
            0
        },
        _ => 0,
    }
}

/// Reads the three channels of a hex color text such as `#ff8000`. One
/// leading `#` is skipped; a text that then does not hold exactly six bytes
/// reads as black, and a pair of bytes that is not a number reads as zero.
pub fn hex_to_channels(raw_hex: &str) -> (r: (i64, i64, i64))
    ensures
        (r.0 as int, r.1 as int, r.2 as int) == hex_channels_of(raw_hex.spec_bytes()),
{
    let bytes = raw_hex.as_bytes();
    let n = bytes.len();
    let i: usize = if n > 0 && bytes[0] == 35 {
        1
    } else {
        0
    };
    assert(strip_hash(bytes@) =~= bytes@.subrange(i as int, n as int));
    if n - i != 6 {
        return (0, 0, 0);
    }
    (field(bytes[i], bytes[i + 1]), field(bytes[i + 2], bytes[i + 3]), field(bytes[i + 4], bytes[i + 5]))
}

/// A lowercase hex color text: `#` and six digits from `0-9a-f`.
pub open spec fn is_lower_hex_color(t: Seq<char>) -> bool {
    &&& t.len() == 7
    &&& t[0] == '#'
    &&& forall|i: int|
        1 <= i < 7 ==> ('0' <= #[trigger] t[i] <= '9' || 'a' <= t[i] <= 'f')
}

proof fn lemma_ascii_bytes(s: &str)
    requires
        is_ascii_chars(s@),
    ensures
        s.spec_bytes() =~= Seq::new(s@.len(), |i: int| s@[i] as u8),
{
    is_ascii_chars_encode_utf8(s@);
}

proof fn lemma_digit_pair(v: int)
    requires
        0 <= v <= 255,
    ensures
        field_value(hex_digit_char(v / 16) as u8, hex_digit_char(v % 16) as u8) == v,
{
}

/// Reading back the text written for three bytes gives those bytes.
pub proof fn lemma_hex_round_trip(r: u8, g: u8, b: u8, s: &str)
    requires
        s@ == hex_text(r as int, g as int, b as int),
    ensures
        hex_channels_of(s.spec_bytes()) == (r as int, g as int, b as int),
{
    let t = s@;
    assert(is_ascii_chars(t));
    lemma_ascii_bytes(s);
    let bytes = s.spec_bytes();
    assert(strip_hash(bytes) =~= bytes.drop_first());
    lemma_digit_pair(r as int);
    lemma_digit_pair(g as int);
    lemma_digit_pair(b as int);
}

proof fn lemma_digit_char_of_value(c: char)
    requires
        '0' <= c <= '9' || 'a' <= c <= 'f',
    ensures
        digit_value(c as u8) is Some,
        hex_digit_char(digit_value(c as u8)->0) == c,
{
}

/// A lowercase hex color text, read into channels, with each channel carried
/// as the nearest thousandth of its share of 255 and quantized back to a byte,
/// is written out as the same text.
pub proof fn lemma_hex_text_round_trip(s: &str)
    requires
        is_lower_hex_color(s@),
    ensures
        ({
            let (c0, c1, c2) = hex_channels_of(s.spec_bytes());
            hex_text(
                channel_byte(nearest_thousandths(c0)),
                channel_byte(nearest_thousandths(c1)),
                channel_byte(nearest_thousandths(c2)),
            ) == s@
        }),
{
    let t = s@;
    assert(is_ascii_chars(t));
    lemma_ascii_bytes(s);
    let bytes = s.spec_bytes();
    assert(strip_hash(bytes) =~= bytes.drop_first());
    assert forall|i: int| 1 <= i < 7 implies digit_value(#[trigger] t[i] as u8) is Some
        && hex_digit_char(digit_value(t[i] as u8)->0) == t[i] by {
        lemma_digit_char_of_value(t[i]);
    }
    let (c0, c1, c2) = hex_channels_of(bytes);
    lemma_byte_survives_thousandths(c0);
    lemma_byte_survives_thousandths(c1);
    lemma_byte_survives_thousandths(c2);
    assert(hex_text(c0, c1, c2) =~= t);
}

/// A color on the display range, given in thousandths and written as hex,
/// reads back as bytes that each lie within half a step of 255 of the channel
/// they came from: `|c / 255 - k / 1000| <= 1 / 510`.
pub proof fn lemma_thousandths_round_trip(k0: int, k1: int, k2: int, s: &str)
    requires
        0 <= k0 <= 1000,
        0 <= k1 <= 1000,
        0 <= k2 <= 1000,
        s@ == hex_text(channel_byte(k0), channel_byte(k1), channel_byte(k2)),
    ensures
        ({
            let (c0, c1, c2) = hex_channels_of(s.spec_bytes());
            &&& -500 < 1000 * c0 - 255 * k0 <= 500
            &&& -500 < 1000 * c1 - 255 * k1 <= 500
            &&& -500 < 1000 * c2 - 255 * k2 <= 500
        }),
{
    lemma_quantize_nearest(k0);
    lemma_quantize_nearest(k1);
    lemma_quantize_nearest(k2);
    lemma_hex_round_trip(
        channel_byte(k0) as u8,
        channel_byte(k1) as u8,
        channel_byte(k2) as u8,
        s,
    );
}

} // verus!
