//! The payload of a string or message table: a block of records, each a
//! 16-bit length and that many UTF-16 code units.

use crate::reader::le_u16;
use crate::utf16::{string_from_utf16, utf16_decode};
use vstd::prelude::*;
use vstd::slice::slice_subrange;
use vstd::string::StringExecFns;

verus! {

/// The 16-bit little-endian units of a block.  A last odd byte is dropped.
pub open spec fn le_units(bytes: Seq<u8>) -> Seq<u16> {
    Seq::new((bytes.len() / 2) as nat, |i: int| le_u16(bytes, 2 * i))
}

/// The text of a block of units, read from its start with `errors` records
/// already found malformed.
///
/// The first unit is the length of a record.  A length of zero is passed
/// over.  A length below the number of units that are left, its own unit
/// counted, takes that many units as the record: they are decoded and the
/// text is kept, or, where they are no UTF-16, the record is counted as
/// malformed.  With the third malformed record the block ends.  Any other
/// length is passed over like a zero.
pub open spec fn block_text(units: Seq<u16>, errors: nat) -> Seq<char>
    decreases units.len(),
{
    if units.len() == 0 {
        Seq::empty()
    } else {
        let len = units[0] as int;
        if 0 < len < units.len() {
            let rest = units.skip(1 + len);
            match utf16_decode(units.subrange(1, 1 + len)) {
                Some(text) => text + block_text(rest, errors),
                None => if errors >= 2 {
                    Seq::empty()
                } else {
                    block_text(rest, errors + 1)
                },
            }
        } else {
            block_text(units.skip(1), errors)
        }
    }
}

/// The text of a payload.
pub open spec fn payload_text(bytes: Seq<u8>) -> Seq<char> {
    block_text(le_units(bytes), 0)
}

/// Reads a block of bytes as little-endian 16-bit units.  With an odd number
/// of bytes the last one is lost.
pub fn convert_to_u16(u8_data: &[u8]) -> (u16_data: Vec<u16>)
    ensures
        u16_data@ == le_units(u8_data@),
{
    let mut i: usize = 0;
    let mut u16_data: Vec<u16> = Vec::new();
    let data_len = u8_data.len();
    while i < data_len
        invariant_except_break
            i % 2 == 0,
        invariant
            data_len == u8_data@.len(),
            i <= data_len,
            u16_data@.len() * 2 == i,
            forall|k: int| 0 <= k < u16_data@.len() ==> u16_data@[k] == le_u16(u8_data@, 2 * k),
        ensures
            u16_data@.len() == data_len / 2,
        decreases data_len - i,
    {
        if i + 1 >= data_len {
            break ;
        }
        let low = u8_data[i];
        let high = u8_data[i + 1];
        let number = ((high as u16) << 8) | low as u16;
        assert(((high as u16) << 8) | low as u16 == low + 0x100 * high) by (bit_vector);
        u16_data.push(number);
        i += 2;
    }
    u16_data
}

/// Decodes the records of a payload and joins their text.
///
/// Malformed records are passed over; with the third one the rest of the
/// payload is given up and what was decoded so far is returned.
pub fn parse_strings(data: &[u8]) -> (text: String)
    ensures
        text@ == payload_text(data@),
{
    let mut i: usize = 0;
    let mut error_count: usize = 0;
    let mut output = String::new();
    let data_u16 = convert_to_u16(data);
    let data_len = data_u16.len();
    assert(data_u16@.skip(0) =~= data_u16@);
    while i < data_len
        invariant_except_break
            error_count <= 2,
            output@ + block_text(data_u16@.skip(i as int), error_count as nat) == payload_text(
                data@,
            ),
        invariant
            data_len == data_u16@.len(),
            i <= data_len,
            data_u16@ == le_units(data@),
        ensures
            output@ == payload_text(data@),
        decreases data_len - i,
    {
        let ghost units = data_u16@.skip(i as int);
        let len = data_u16[i] as usize;
        if 0 < len && len < data_len - i {
            let record = slice_subrange(data_u16.as_slice(), i + 1, i + 1 + len);
            assert(record@ =~= units.subrange(1, 1 + len));
            assert(units.skip(1 + len) =~= data_u16@.skip(i + 1 + len));
            match string_from_utf16(record) {
                Some(string) => {
                    output.append(string.as_str());
                },
                None => {
                    error_count += 1;
                },
            }
            if error_count > 2 {
                break ;
            }
            i += 1 + len;
        } else {
            assert(units.skip(1) =~= data_u16@.skip(i + 1));
            i += 1;
        }
    }
    output
}

} // verus!
