//! The comment and reaction records attached to a parent post, and the
//! post's checked reaction counters.

use vstd::prelude::*;

use crate::ErrorCode;
use crate::Identity;

verus! {

/// The two reaction kinds a caller may leave on a parent post.
#[derive(Clone, Copy, Debug, PartialEq, Eq, Structural)]
pub enum ReactionKind {
    Like,
    Dislike,
}

/// A parent post's counters. Arithmetic on them is checked: overflow is an
/// error, never silent wraparound.
pub struct Tweet {
    pub likes: u64,
    pub dislikes: u64,
}

/// One reaction: at most one exists per (author, parent) pair, enforced by
/// address derivation.
pub struct Reaction {
    pub reaction_author: Identity,
    pub parent_tweet: Identity,
    pub reaction: ReactionKind,
    pub bump: u8,
}

/// One comment: identical (author, content, parent) triples collide by
/// design, so identical content is deduplicated per author per parent.
pub struct Comment {
    pub comment_author: Identity,
    pub parent_tweet: Identity,
    pub content: Vec<u8>,
    pub bump: u8,
}

impl Tweet {
    /// Increments the counter the kind selects, failing on overflow and
    /// leaving both counters untouched in that case.
    pub fn apply_reaction(&mut self, kind: ReactionKind) -> (r: Result<(), ErrorCode>)
        ensures
            kind == ReactionKind::Like && old(self).likes < u64::MAX ==> r == Ok::<(),
            ErrorCode>(()) && final(self).likes == old(self).likes + 1 && final(self).dislikes
                == old(self).dislikes,
            kind == ReactionKind::Like && old(self).likes == u64::MAX ==> r == Err::<(),
            ErrorCode>(ErrorCode::MaxReached) && *final(self) == *old(self),
            kind == ReactionKind::Dislike && old(self).dislikes < u64::MAX ==> r == Ok::<(),
            ErrorCode>(()) && final(self).dislikes == old(self).dislikes + 1 && final(self).likes
                == old(self).likes,
            kind == ReactionKind::Dislike && old(self).dislikes == u64::MAX ==> r == Err::<(),
            ErrorCode>(ErrorCode::MaxReached) && *final(self) == *old(self),
    {
        match kind {
            ReactionKind::Like => {
                match self.likes.checked_add(1) {
                    Some(n) => {
                        self.likes = n;
                        Ok(())
                    },
                    None => Err(ErrorCode::MaxReached),
                }
            },
            ReactionKind::Dislike => {
                match self.dislikes.checked_add(1) {
                    Some(n) => {
                        self.dislikes = n;
                        Ok(())
                    },
                    None => Err(ErrorCode::MaxReached),
                }
            },
        }
    }
}

} // verus!
