//! Little-endian fields at a cursor.
//!
//! A read takes the buffer and a cursor, yields the integer that starts at the
//! cursor and moves the cursor past it.  A read that would reach past the end
//! of the buffer fails and leaves the cursor where it was.

use scroll::Error as ScrollError;
use scroll::Pread;
use vstd::prelude::*;

verus! {

/// The buffer holds `width` bytes from `at` on.
pub open spec fn holds(bytes: Seq<u8>, at: int, width: int) -> bool {
    0 <= at && at + width <= bytes.len()
}

/// The bytes that the buffer holds from `at` on; none where `at` lies past its end.
pub open spec fn left(bytes: Seq<u8>, at: int) -> int {
    if at <= bytes.len() {
        bytes.len() - at
    } else {
        0
    }
}

/// The 16-bit little-endian integer whose first byte is `bytes[at]`.
pub open spec fn le_u16(bytes: Seq<u8>, at: int) -> u16
    recommends
        holds(bytes, at, 2),
{
    (bytes[at] + 0x100 * bytes[at + 1]) as u16
}

/// The 32-bit little-endian integer whose first byte is `bytes[at]`.
pub open spec fn le_u32(bytes: Seq<u8>, at: int) -> u32
    recommends
        holds(bytes, at, 4),
{
    (bytes[at] + 0x100 * bytes[at + 1] + 0x1_0000 * bytes[at + 2] + 0x100_0000 * bytes[at + 3]) as u32
}

/// `scroll::Pread::gread_with` for a `u16` with `scroll::LE`: where two bytes
/// are left at the cursor they are read as a little-endian integer and the
/// cursor moves by two; otherwise the call fails and the cursor stays.
#[verifier::external_body]
pub(crate) fn read_u16(data: &Vec<u8>, offset: &mut usize) -> (r: Result<u16, ScrollError>)
    ensures
        holds(data@, *old(offset) as int, 2) ==> r is Ok && r->Ok_0 == le_u16(
            data@,
            *old(offset) as int,
        ) && *final(offset) == *old(offset) + 2,
        !holds(data@, *old(offset) as int, 2) ==> r is Err && *final(offset) == *old(offset),
{
    data.gread_with(offset, scroll::LE)
}

/// `scroll::Pread::gread_with` for a `u32` with `scroll::LE`: where four bytes
/// are left at the cursor they are read as a little-endian integer and the
/// cursor moves by four; otherwise the call fails and the cursor stays.
#[verifier::external_body]
pub(crate) fn read_u32(data: &Vec<u8>, offset: &mut usize) -> (r: Result<u32, ScrollError>)
    ensures
        holds(data@, *old(offset) as int, 4) ==> r is Ok && r->Ok_0 == le_u32(
            data@,
            *old(offset) as int,
        ) && *final(offset) == *old(offset) + 4,
        !holds(data@, *old(offset) as int, 4) ==> r is Err && *final(offset) == *old(offset),
{
    data.gread_with(offset, scroll::LE)
}

} // verus!
