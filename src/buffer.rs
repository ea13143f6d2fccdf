//! The fixed-capacity text buffer that hex colors are written into: a
//! `heapless::String` of seven bytes, which needs no heap allocation.

use vstd::prelude::*;
use vstd::utf8::is_ascii_chars;

verus! {

#[verifier::external_type_specification]
#[verifier::external_body]
pub struct ExHeaplessString<const N: usize>(heapless::String<N>);

/// The characters that a seven-byte buffer holds.
pub uninterp spec fn buffer_text(s: heapless::String<7>) -> Seq<char>;

/// Relies on `heapless::String::new`: a new string holds no characters.
#[verifier::external_body]
pub(crate) fn empty_buffer() -> (r: heapless::String<7>)
    ensures
        buffer_text(r) == Seq::<char>::empty(),
{
    heapless::String::new()
}

/// Relies on `heapless::String::push`: an ASCII character takes one byte of the
/// seven; it is appended when a byte is left, and otherwise `Err` comes back
/// and the string is left as it was.
#[verifier::external_body]
pub(crate) fn push_ascii(s: &mut heapless::String<7>, c: char) -> (r: Result<(), ()>)
    requires
        c <= '\u{7f}',
    ensures
        r is Ok ==> buffer_text(*final(s)) == buffer_text(*old(s)).push(c),
        r is Err ==> buffer_text(*final(s)) == buffer_text(*old(s)),
        is_ascii_chars(buffer_text(*old(s))) && buffer_text(*old(s)).len() < 7 ==> r is Ok,
{
    s.push(c)
}

} // verus!
