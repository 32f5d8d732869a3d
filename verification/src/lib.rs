//! Deterministically-addressed, size-bounded record keeping: a streak
//! journal, a custody vault, and a comment/reaction store, all living at
//! addresses derived from their owner's identity.

use vstd::prelude::*;

pub mod journal;
pub mod laws;
pub mod platform;
pub mod seeds;
pub mod store;
pub mod social;
pub mod text;
pub mod vault;

verus! {

/// Why an operation was rejected. Every failure identifies the precondition
/// that was violated; no value is ever clamped or defaulted instead.
#[derive(Clone, Copy, Debug, PartialEq, Eq)]
pub enum ErrorCode {
    /// The caller is not the record's recorded owner or authority.
    Unauthorized,
    /// The derived address is already occupied by a record.
    AlreadyExists,
    /// A caller-supplied address disagrees with the recomputed one.
    AddressMismatch,
    /// An idea text is longer than 280 bytes.
    IdeaTooLong,
    /// An idea text is empty once whitespace is trimmed.
    EmptyIdea,
    /// A comment text is longer than 280 bytes.
    CommentTooLong,
    /// The paying holding does not cover the amount to be moved.
    InsufficientBalance,
    /// The vault's locked flag forbids any movement of its holding.
    Locked,
    /// A checked counter would overflow.
    MaxReached,
    /// No disambiguator yields a valid derived address for these seeds.
    AddressUnavailable,
    /// No record of the expected class occupies the given address.
    RecordNotFound,
}

/// A caller's 32-byte verifiable identifier. Derived record addresses share
/// the same shape, so the type serves for both.
#[derive(Clone, Copy, Debug, PartialEq, Eq)]
pub struct Identity {
    pub bytes: [u8; 32],
}

impl View for Identity {
    type V = Seq<u8>;

    open spec fn view(&self) -> Seq<u8> {
        self.bytes@
    }
}

impl Identity {
    /// Byte-for-byte comparison of two identities.
    pub fn eq_bytes(&self, other: &Identity) -> (r: bool)
        ensures
            r == (self@ == other@),
    {
        let mut i: usize = 0;
        while i < 32
            invariant
                i <= 32,
                forall|k: int| 0 <= k < i ==> self.bytes@[k] == other.bytes@[k],
            decreases 32 - i,
        {
            if self.bytes[i] != other.bytes[i] {
                assert(self@[i as int] != other@[i as int]);
                return false;
            }
            i += 1;
        }
        assert(self@ =~= other@);
        true
    }
}

} // verus!
