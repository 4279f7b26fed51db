//! UTF-16 as a relation between code units and text.

use vstd::prelude::*;

verus! {

/// A code unit in the range that UTF-16 reserves for pairs.
pub open spec fn is_surrogate(unit: u16) -> bool {
    0xD800 <= unit <= 0xDFFF
}

/// A code unit that opens a pair.
pub open spec fn is_high_surrogate(unit: u16) -> bool {
    0xD800 <= unit <= 0xDBFF
}

/// A code unit that closes a pair.
pub open spec fn is_low_surrogate(unit: u16) -> bool {
    0xDC00 <= unit <= 0xDFFF
}

/// The scalar value that a pair stands for.
pub open spec fn pair_scalar(high: u16, low: u16) -> u32 {
    (0x1_0000 + (high - 0xD800) * 0x400 + (low - 0xDC00)) as u32
}

/// The text that a run of code units stands for, or `None` where a surrogate
/// is not part of a pair: a unit outside the surrogate range is a character
/// by itself, a high surrogate with a low surrogate behind it is one
/// character, and nothing else is text.
pub open spec fn utf16_decode(units: Seq<u16>) -> Option<Seq<char>>
    decreases units.len(),
{
    if units.len() == 0 {
        Some(Seq::empty())
    } else if !is_surrogate(units[0]) {
        match utf16_decode(units.skip(1)) {
            Some(rest) => Some(seq![units[0] as u32 as char] + rest),
            None => None,
        }
    } else if is_high_surrogate(units[0]) && units.len() >= 2 && is_low_surrogate(units[1]) {
        match utf16_decode(units.skip(2)) {
            Some(rest) => Some(seq![pair_scalar(units[0], units[1]) as char] + rest),
            None => None,
        }
    } else {
        None
    }
}

/// The code units of one character: itself below `0x10000`, a pair above.
pub open spec fn utf16_encode_char(c: char) -> Seq<u16> {
    let scalar = c as u32;
    if scalar < 0x1_0000 {
        seq![scalar as u16]
    } else {
        seq![
            (0xD800 + (scalar - 0x1_0000) / 0x400) as u16,
            (0xDC00 + (scalar - 0x1_0000) % 0x400) as u16,
        ]
    }
}

/// The code units of a text.
pub open spec fn utf16_encode(text: Seq<char>) -> Seq<u16>
    decreases text.len(),
{
    if text.len() == 0 {
        Seq::empty()
    } else {
        utf16_encode_char(text[0]) + utf16_encode(text.skip(1))
    }
}

/// Decoding the code units of a text gives the text back.
pub proof fn lemma_utf16_round_trip(text: Seq<char>)
    ensures
        utf16_decode(utf16_encode(text)) == Some(text),
    decreases text.len(),
{
    if text.len() > 0 {
        let c = text[0];
        let scalar = c as u32;
        let tail = text.skip(1);
        let units = utf16_encode(text);
        vstd::utf8::char_is_scalar(c);
        vstd::utf8::char_u32_cast(c, scalar);
        lemma_utf16_round_trip(tail);
        if scalar < 0x1_0000 {
            assert(units.skip(1) =~= utf16_encode(tail));
        } else {
            assert(units.skip(2) =~= utf16_encode(tail));
        }
    }
}

/// `String::from_utf16`, with the error dropped: the text that the code units
/// stand for, or `None` where they hold a surrogate outside a pair.
#[verifier::external_body]
pub(crate) fn string_from_utf16(units: &[u16]) -> (r: Option<String>)
    ensures
        r is Some <==> utf16_decode(units@) is Some,
        r is Some ==> r->Some_0@ == utf16_decode(units@)->Some_0,
{
    String::from_utf16(units).ok()
}

} // verus!
