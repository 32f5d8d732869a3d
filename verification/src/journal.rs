//! The streak journal: a time-windowed counter state machine and a capped,
//! insertion-ordered history of idea entries.

use vstd::prelude::*;

use crate::text::{blank, is_blank, MAX_TEXT_BYTES};
use crate::ErrorCode;
use crate::Identity;

verus! {

/// The rolling window within which a streak continues, in seconds.
pub const STREAK_WINDOW_SECONDS: i64 = 86400;

/// Most history entries a journal keeps; strictly older entries are evicted
/// first.
pub const HISTORY_CAP: usize = 20;

/// One logged idea: its text and the timestamp it was logged at.
pub struct IdeaLog {
    pub text: Vec<u8>,
    pub timestamp: i64,
}

/// A caller's journal: streak counter, timestamps, the latest idea text and
/// a capped history of entries.
pub struct Journal {
    pub owner: Identity,
    pub streak: u64,
    pub last_logged: i64,
    pub created_at: i64,
    pub last_idea: Vec<u8>,
    pub ideas: Vec<IdeaLog>,
}

/// The streak transition: a first-ever entry or one after the window
/// elapsed starts at 1; an entry within the window increments by 1. The
/// window test is a plain non-strict comparison, deliberately not guarded
/// against `now` lying before `last_logged`.
pub open spec fn next_streak(streak: u64, last_logged: i64, now: i64) -> int {
    if last_logged == 0 {
        1
    } else if now - last_logged <= STREAK_WINDOW_SECONDS {
        streak + 1
    } else {
        1
    }
}

/// A history after appending one entry at the tail and evicting from the
/// head until at most `HISTORY_CAP` entries remain.
pub open spec fn push_capped(h: Seq<IdeaLog>, entry: IdeaLog) -> Seq<IdeaLog> {
    let grown = h.push(entry);
    if grown.len() <= HISTORY_CAP {
        grown
    } else {
        grown.subrange(grown.len() - HISTORY_CAP, grown.len() as int)
    }
}

/// An idea text that may be logged: within the byte bound and not blank.
pub open spec fn idea_ok(text: Seq<u8>) -> bool {
    text.len() <= MAX_TEXT_BYTES && !blank(text)
}

/// Appends at the tail, then evicts from the head while over the cap.
pub fn append_idea(ideas: &mut Vec<IdeaLog>, entry: IdeaLog)
    ensures
        final(ideas)@ == push_capped(old(ideas)@, entry),
{
    ideas.push(entry);
    let ghost grown: Seq<IdeaLog> = ideas@;
    while ideas.len() > HISTORY_CAP
        invariant
            ideas@.len() <= grown.len(),
            grown.len() <= HISTORY_CAP ==> ideas@.len() == grown.len(),
            grown.len() > HISTORY_CAP ==> ideas@.len() >= HISTORY_CAP,
            ideas@ == grown.subrange(grown.len() - ideas@.len(), grown.len() as int),
        decreases ideas@.len(),
    {
        ideas.remove(0);
        proof {
            assert(ideas@ =~= grown.subrange(grown.len() - ideas@.len(), grown.len() as int));
        }
    }
    proof {
        if grown.len() <= HISTORY_CAP {
            assert(ideas@ =~= grown);
        }
    }
}

/// A journal as `initialize_journal` writes it: no idea logged yet, streak
/// 0, creation stamped.
pub open spec fn fresh_journal(j: Journal, owner: Identity, now: i64) -> bool {
    &&& j.owner == owner
    &&& j.streak == 0
    &&& j.last_logged == 0
    &&& j.created_at == now
    &&& j.last_idea@ == Seq::<u8>::empty()
    &&& j.ideas@ == Seq::<IdeaLog>::empty()
}

impl Journal {
    /// A journal as `initialize_journal` writes it: no idea logged yet.
    pub fn fresh(owner: Identity, now: i64) -> (j: Journal)
        ensures
            fresh_journal(j, owner, now),
    {
        Journal {
            owner,
            streak: 0,
            last_logged: 0,
            created_at: now,
            last_idea: Vec::new(),
            ideas: Vec::new(),
        }
    }

    /// Validates the text, then advances the streak state machine, stamps
    /// the log time, and appends to the capped history. A rejected text
    /// leaves the journal untouched.
    pub fn record_idea(&mut self, text: Vec<u8>, now: i64) -> (r: Result<(), ErrorCode>)
        requires
            i64::MIN <= now - old(self).last_logged <= i64::MAX,
            (old(self).last_logged != 0 && now - old(self).last_logged <= STREAK_WINDOW_SECONDS)
                ==> old(self).streak < u64::MAX,
        ensures
            text@.len() > MAX_TEXT_BYTES ==> r == Err::<(), ErrorCode>(ErrorCode::IdeaTooLong)
                && *final(self) == *old(self),
            text@.len() <= MAX_TEXT_BYTES && blank(text@) ==> r == Err::<(), ErrorCode>(
                ErrorCode::EmptyIdea,
            ) && *final(self) == *old(self),
            idea_ok(text@) ==> {
                &&& r == Ok::<(), ErrorCode>(())
                &&& final(self).owner == old(self).owner
                &&& final(self).created_at == old(self).created_at
                &&& final(self).streak == next_streak(
                    old(self).streak,
                    old(self).last_logged,
                    now,
                )
                &&& final(self).last_logged == now
                &&& final(self).last_idea@ == text@
                &&& final(self).ideas@ == push_capped(
                    old(self).ideas@,
                    (IdeaLog { text: text, timestamp: now }),
                )
            },
    {
        if text.len() > MAX_TEXT_BYTES {
            return Err(ErrorCode::IdeaTooLong);
        }
        if is_blank(&text) {
            return Err(ErrorCode::EmptyIdea);
        }
        if self.last_logged == 0 {
            self.streak = 1;
        } else if now - self.last_logged <= STREAK_WINDOW_SECONDS {
            self.streak = self.streak + 1;
        } else {
            self.streak = 1;
        }
        self.last_logged = now;
        let copy = text.clone();
        proof {
            assert(copy@ =~= text@);
        }
        self.last_idea = copy;
        append_idea(&mut self.ideas, IdeaLog { text, timestamp: now });
        Ok(())
    }
}

} // verus!
