//! Blocks written out record by record, and what decoding makes of them.

use crate::strings::{block_text, le_units, payload_text};
use crate::utf16::{lemma_utf16_round_trip, utf16_decode, utf16_encode};
use vstd::prelude::*;

verus! {

/// The bytes of a run of units, each unit little-endian.
pub open spec fn le_bytes(units: Seq<u16>) -> Seq<u8> {
    Seq::new(
        2 * units.len(),
        |i: int|
            if i % 2 == 0 {
                (units[i / 2] % 0x100) as u8
            } else {
                (units[i / 2] / 0x100) as u8
            },
    )
}

/// A record: the number of units, then the units.
pub open spec fn record(units: Seq<u16>) -> Seq<u16> {
    seq![units.len() as u16] + units
}

/// The records of a sequence of texts, one behind the other.
pub open spec fn text_records(texts: Seq<Seq<char>>) -> Seq<u16>
    decreases texts.len(),
{
    if texts.len() == 0 {
        Seq::empty()
    } else {
        record(utf16_encode(texts.first())) + text_records(texts.drop_first())
    }
}

/// The block that holds the records of a sequence of texts.
pub open spec fn encode_block(texts: Seq<Seq<char>>) -> Seq<u8> {
    le_bytes(text_records(texts))
}

/// The length of every text fits the 16-bit length field of a record.
pub open spec fn texts_fit(texts: Seq<Seq<char>>) -> bool {
    forall|i: int| 0 <= i < texts.len() ==> utf16_encode(#[trigger] texts[i]).len() <= 0xFFFF
}

/// Reading the bytes of a run of units as units gives the run back.
pub proof fn lemma_units_round_trip(units: Seq<u16>)
    ensures
        le_units(le_bytes(units)) == units,
{
}

/// A record of length zero adds no text and counts as no malformed record:
/// decoding goes on behind its length unit with the same count.
pub proof fn lemma_empty_record_passed_over(units: Seq<u16>, errors: nat)
    requires
        units.len() > 0,
        units[0] == 0,
    ensures
        block_text(units, errors) == block_text(units.skip(1), errors),
{
}

/// What one record in front of a block comes to: its text in front of the
/// text of the rest, where it decodes; the text of the rest with one more
/// malformed record counted, where it does not and is the first or second
/// such; and no text at all, where it is the third.
pub proof fn lemma_record_then_rest(units: Seq<u16>, rest: Seq<u16>, errors: nat)
    requires
        0 < units.len() <= 0xFFFF,
    ensures
        block_text(record(units) + rest, errors) == match utf16_decode(units) {
            Some(text) => text + block_text(rest, errors),
            None => if errors >= 2 {
                Seq::empty()
            } else {
                block_text(rest, errors + 1)
            },
        },
{
    let block = record(units) + rest;
    let len = units.len() as int;
    assert(block.subrange(1, 1 + len) =~= units);
    assert(block.skip(1 + len) =~= rest);
}

/// The records of texts in front of a block decode to the texts, joined, in
/// front of the text of the rest; the count of malformed records stays.
pub proof fn lemma_texts_then_rest(texts: Seq<Seq<char>>, rest: Seq<u16>, errors: nat)
    requires
        texts_fit(texts),
    ensures
        block_text(text_records(texts) + rest, errors) == texts.flatten() + block_text(rest, errors),
    decreases texts.len(),
{
    if texts.len() > 0 {
        let text = texts.first();
        let units = utf16_encode(text);
        let others = texts.drop_first();
        let behind = text_records(others) + rest;
        lemma_texts_then_rest(others, rest, errors);
        lemma_utf16_round_trip(text);
        assert(text_records(texts) + rest =~= record(units) + behind);
        if units.len() == 0 {
            assert((seq![0u16] + behind).skip(1) =~= behind);
            lemma_empty_record_passed_over(seq![0u16] + behind, errors);
        } else {
            lemma_record_then_rest(units, behind, errors);
        }
    }
}

/// Writing texts out as records and decoding the block gives the texts back,
/// joined in their order.
pub proof fn lemma_block_round_trip(texts: Seq<Seq<char>>)
    requires
        texts_fit(texts),
    ensures
        payload_text(encode_block(texts)) == texts.flatten(),
{
    let units = text_records(texts);
    lemma_units_round_trip(units);
    lemma_texts_then_rest(texts, Seq::empty(), 0);
}

/// Two malformed records behind well-formed ones are passed over: the block
/// decodes to the texts in front and to what lies behind the two.
pub proof fn lemma_two_malformed_records_passed_over(
    texts: Seq<Seq<char>>,
    first: Seq<u16>,
    second: Seq<u16>,
    rest: Seq<u16>,
)
    requires
        texts_fit(texts),
        0 < first.len() <= 0xFFFF,
        0 < second.len() <= 0xFFFF,
        utf16_decode(first) is None,
        utf16_decode(second) is None,
    ensures
        block_text(text_records(texts) + record(first) + record(second) + rest, 0)
            == texts.flatten() + block_text(rest, 2),
{
    let behind = record(first) + (record(second) + rest);
    assert(text_records(texts) + record(first) + record(second) + rest =~= text_records(texts)
        + behind);
    lemma_texts_then_rest(texts, behind, 0);
    lemma_record_then_rest(first, record(second) + rest, 0);
    lemma_record_then_rest(second, rest, 1);
}

/// The third malformed record ends the block: with three of them behind
/// well-formed records, the block decodes to the texts in front and to
/// nothing of what lies behind.
pub proof fn lemma_third_malformed_record_ends_block(
    texts: Seq<Seq<char>>,
    first: Seq<u16>,
    second: Seq<u16>,
    third: Seq<u16>,
    rest: Seq<u16>,
)
    requires
        texts_fit(texts),
        0 < first.len() <= 0xFFFF,
        0 < second.len() <= 0xFFFF,
        0 < third.len() <= 0xFFFF,
        utf16_decode(first) is None,
        utf16_decode(second) is None,
        utf16_decode(third) is None,
    ensures
        block_text(
            text_records(texts) + record(first) + record(second) + record(third) + rest,
            0,
        ) == texts.flatten(),
{
    let tail = record(third) + rest;
    assert(text_records(texts) + record(first) + record(second) + record(third) + rest
        =~= text_records(texts) + record(first) + record(second) + tail);
    lemma_two_malformed_records_passed_over(texts, first, second, tail);
    lemma_record_then_rest(third, rest, 2);
}

} // verus!
