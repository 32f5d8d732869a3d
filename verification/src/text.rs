//! Validation of record text: byte-length bounds and the blank-text check.
//! Text is carried as raw bytes, so the bounds are byte counts.

use vstd::prelude::*;

verus! {

/// Longest idea or comment text, in bytes.
pub const MAX_TEXT_BYTES: usize = 280;

/// ASCII whitespace: space, tab, line feed, vertical tab, form feed,
/// carriage return.
pub open spec fn is_space_byte(b: u8) -> bool {
    b == 32 || (9 <= b && b <= 13)
}

/// A text that trimming whitespace would leave empty.
pub open spec fn blank(text: Seq<u8>) -> bool {
    forall|i: int| 0 <= i < text.len() ==> is_space_byte(text[i])
}

/// Byte-for-byte check that trimming whitespace would leave the text empty.
pub fn is_blank(text: &Vec<u8>) -> (r: bool)
    ensures
        r == blank(text@),
{
    let mut i: usize = 0;
    while i < text.len()
        invariant
            i <= text@.len(),
            forall|k: int| 0 <= k < i ==> is_space_byte(text@[k]),
        decreases text@.len() - i,
    {
        let b = text[i];
        if !(b == 32 || (9 <= b && b <= 13)) {
            assert(!is_space_byte(text@[i as int]));
            return false;
        }
        i += 1;
    }
    true
}

} // verus!
