//! The library's stated laws: proof functions over the same spec
//! vocabulary the entry points' contracts use.

use vstd::prelude::*;

use crate::journal::fresh_journal;
use crate::journal::next_streak;
use crate::journal::push_capped;
use crate::journal::IdeaLog;
use crate::journal::HISTORY_CAP;
use crate::journal::STREAK_WINDOW_SECONDS;
use crate::social::ReactionKind;
use crate::store::account_at;
use crate::store::creation_outcome;
use crate::store::reaction_outcome;
use crate::store::same_state;
use crate::store::stored_record;
use crate::store::sum_lamports;
use crate::store::Record;
use crate::store::Store;
use crate::store::JOURNAL_SPACE;
use crate::ErrorCode;
use crate::Identity;

verus! {

/// A newly initialized journal reads back a streak of 0: creating a
/// journal succeeds only with a fresh record at the derived address, and
/// the streak projection of a fresh record is 0.
pub proof fn lemma_initialized_journal_reads_zero(
    pre: Store,
    post: Store,
    owner: Identity,
    now: i64,
    addr: Seq<u8>,
    r: Result<(), ErrorCode>,
)
    requires
        creation_outcome(
            pre,
            post,
            addr,
            owner,
            JOURNAL_SPACE as nat,
            (|rec: Record|
                match rec {
                    Record::Journal(j) => fresh_journal(j, owner, now),
                    _ => false,
                }),
            r,
        ),
        r is Ok,
    ensures
        (match stored_record(post.accounts@, addr) {
            Some(Record::Journal(j)) => j.owner == owner && j.streak == 0 && j.last_logged == 0,
            _ => false,
        }),
{
}

/// The first-ever idea always starts the streak at 1, whatever the clock
/// reads.
pub proof fn lemma_first_idea_starts_streak(streak: u64, now: i64)
    ensures
        next_streak(streak, 0, now) == 1,
{
}

/// Within the window the streak advances by exactly 1; once the window
/// has elapsed it resets to 1. The comparison is non-strict and applies
/// as written even when `now` lies before the last log.
pub proof fn lemma_streak_window(streak: u64, last_logged: i64, now: i64)
    requires
        last_logged != 0,
    ensures
        now - last_logged <= STREAK_WINDOW_SECONDS ==> next_streak(streak, last_logged, now)
            == streak + 1,
        now - last_logged > STREAK_WINDOW_SECONDS ==> next_streak(streak, last_logged, now) == 1,
{
}

/// The most recent entries of a history, at most `HISTORY_CAP` of them.
pub open spec fn last_window(s: Seq<IdeaLog>) -> Seq<IdeaLog> {
    if s.len() <= HISTORY_CAP {
        s
    } else {
        s.skip(s.len() - HISTORY_CAP)
    }
}

/// A history after a run of appends, each applied as `log_idea` applies
/// it.
pub open spec fn appended(h: Seq<IdeaLog>, entries: Seq<IdeaLog>) -> Seq<IdeaLog>
    decreases entries.len(),
{
    if entries.len() == 0 {
        h
    } else {
        appended(push_capped(h, entries[0]), entries.drop_first())
    }
}

/// Taking the last window commutes with appending more entries.
proof fn lemma_last_window_absorb(a: Seq<IdeaLog>, b: Seq<IdeaLog>)
    ensures
        last_window(last_window(a) + b) == last_window(a + b),
{
    let k: int = if a.len() <= HISTORY_CAP {
        0
    } else {
        a.len() - HISTORY_CAP
    };
    assert(last_window(a) =~= a.skip(k));
    assert(last_window(a) + b =~= (a + b).skip(k));
    let s = a + b;
    let m = last_window(a).len() + b.len();
    if m <= HISTORY_CAP {
        assert(last_window(last_window(a) + b) =~= s.skip(k));
        assert(last_window(s) =~= s.skip(if s.len() <= HISTORY_CAP {
            0
        } else {
            s.len() - HISTORY_CAP
        }));
        if s.len() > HISTORY_CAP {
            assert(s.len() - HISTORY_CAP == k);
        } else {
            assert(k == 0);
        }
        assert(last_window(last_window(a) + b) =~= last_window(s));
    } else {
        assert(last_window(last_window(a) + b) =~= s.skip(k).skip(m - HISTORY_CAP));
        assert(s.skip(k).skip(m - HISTORY_CAP) =~= s.skip(k + m - HISTORY_CAP));
        assert(k + m - HISTORY_CAP == s.len() - HISTORY_CAP);
        assert(last_window(s) =~= s.skip(s.len() - HISTORY_CAP));
    }
}

/// The history is a sliding window: starting within the cap, any run of
/// appends leaves exactly the most recent `HISTORY_CAP` entries, in
/// insertion order; strictly older entries are gone.
pub proof fn lemma_history_sliding_window(h: Seq<IdeaLog>, entries: Seq<IdeaLog>)
    requires
        h.len() <= HISTORY_CAP,
    ensures
        appended(h, entries).len() <= HISTORY_CAP,
        appended(h, entries) == last_window(h + entries),
    decreases entries.len(),
{
    if entries.len() == 0 {
        assert(h + entries =~= h);
    } else {
        let e = entries[0];
        let h1 = push_capped(h, e);
        assert(h1 =~= last_window(h.push(e)));
        assert(h1.len() <= HISTORY_CAP);
        lemma_history_sliding_window(h1, entries.drop_first());
        assert(h.push(e) + entries.drop_first() =~= h + entries);
        lemma_last_window_absorb(h.push(e), entries.drop_first());
        assert(appended(h, entries) == appended(h1, entries.drop_first()));
    }
}

/// Value moves never create or destroy funds: any operation that keeps
/// the running total keeps the sum of every account's holding, so a
/// deposit or withdraw moves exactly its amount from one holding to the
/// other.
pub proof fn lemma_transfer_conservation(pre: Store, post: Store)
    requires
        pre.wf(),
        post.wf(),
        post.total_lamports == pre.total_lamports,
    ensures
        sum_lamports(post.accounts@) == sum_lamports(pre.accounts@),
{
}

/// A second reaction by the same author on the same parent is rejected as
/// already existing, leaves the state as it was, and so the parent's
/// counter has advanced exactly once over the two calls.
pub proof fn lemma_reaction_dedup(
    s0: Store,
    s1: Store,
    s2: Store,
    author: Identity,
    tweet_address: Identity,
    kind1: ReactionKind,
    kind2: ReactionKind,
    r1: Result<(), ErrorCode>,
    r2: Result<(), ErrorCode>,
)
    requires
        s1.program_id == s0.program_id,
        reaction_outcome(s0, s1, author, tweet_address, kind1, r1),
        r1 is Ok,
        reaction_outcome(s1, s2, author, tweet_address, kind2, r2),
    ensures
        r2 == Err::<(), ErrorCode>(ErrorCode::AlreadyExists),
        same_state(s1, s2),
        (match (
            stored_record(s0.accounts@, tweet_address@),
            stored_record(s2.accounts@, tweet_address@),
        ) {
            (Some(Record::Tweet(t0)), Some(Record::Tweet(t2))) => if kind1
                == ReactionKind::Like {
                t2.likes == t0.likes + 1 && t2.dislikes == t0.dislikes
            } else {
                t2.dislikes == t0.dislikes + 1 && t2.likes == t0.likes
            },
            _ => false,
        }),
{
    assert(stored_record(s1.accounts@, tweet_address@) == account_at(
        s1.accounts@,
        tweet_address@,
    ).record);
}

} // verus!
