//! The record store: the set of accounts keyed by derived address. An
//! account is either a plain funded wallet or a wallet occupied by a
//! record. Creation allocates a new account sized to the record class,
//! funds it from a wallet, and writes the initial state; every entry point
//! goes through it.

use vstd::prelude::*;

use crate::journal::fresh_journal;
use crate::journal::next_streak;
use crate::journal::push_capped;
use crate::journal::IdeaLog;
use crate::journal::Journal;
use crate::journal::STREAK_WINDOW_SECONDS;
use crate::text::blank;
use crate::text::MAX_TEXT_BYTES;
use crate::platform::derive_pda;
use crate::platform::pda_of;
use crate::platform::rent_exempt_minimum;
use crate::platform::rent_minimum;
use crate::platform::content_fingerprint;
use crate::seeds::comment_seed_vec;
use crate::seeds::comment_seeds;
use crate::seeds::journal_seed_vec;
use crate::seeds::journal_seeds;
use crate::seeds::reaction_seed_vec;
use crate::seeds::reaction_seeds;
use crate::seeds::vault_seed_vec;
use crate::seeds::vault_seeds;
use crate::social::Comment;
use crate::social::ReactionKind;
use crate::social::Reaction;
use crate::social::Tweet;
use crate::vault::Vault;
use crate::ErrorCode;
use crate::Identity;

verus! {

/// A record occupying an account: one of the five record classes.
pub enum Record {
    Journal(Journal),
    Vault(Vault),
    Tweet(Tweet),
    Comment(Comment),
    Reaction(Reaction),
}

/// One account: its address, its holding, and the record occupying it, if
/// any. A plain wallet carries no record.
pub struct Account {
    pub address: Identity,
    pub lamports: u64,
    pub record: Option<Record>,
}

/// The set of accounts a program instance manages, with the running total
/// of all holdings.
pub struct Store {
    pub program_id: Identity,
    pub accounts: Vec<Account>,
    pub total_lamports: u64,
}

/// Each address binds at most one account.
pub open spec fn unique_addresses(accs: Seq<Account>) -> bool {
    forall|i: int, j: int|
        0 <= i < j < accs.len() ==> accs[i].address@ != accs[j].address@
}

/// The sum of all holdings.
pub open spec fn sum_lamports(accs: Seq<Account>) -> int
    decreases accs.len(),
{
    if accs.len() == 0 {
        0
    } else {
        accs[0].lamports + sum_lamports(accs.drop_first())
    }
}

/// Whether some account occupies the address.
pub open spec fn occupied(accs: Seq<Account>, addr: Seq<u8>) -> bool {
    exists|i: int| 0 <= i < accs.len() && accs[i].address@ == addr
}

/// The position of the account at the address.
pub open spec fn index_of(accs: Seq<Account>, addr: Seq<u8>) -> int {
    choose|i: int| 0 <= i < accs.len() && accs[i].address@ == addr
}

/// The account at the address.
pub open spec fn account_at(accs: Seq<Account>, addr: Seq<u8>) -> Account {
    accs[index_of(accs, addr)]
}

pub proof fn lemma_sum_nonneg(accs: Seq<Account>)
    ensures
        sum_lamports(accs) >= 0,
    decreases accs.len(),
{
    if accs.len() > 0 {
        lemma_sum_nonneg(accs.drop_first());
    }
}

pub proof fn lemma_sum_push(accs: Seq<Account>, a: Account)
    ensures
        sum_lamports(accs.push(a)) == sum_lamports(accs) + a.lamports,
    decreases accs.len(),
{
    assert(accs.push(a).len() > 0);
    assert(sum_lamports(accs.push(a)) == accs.push(a)[0].lamports + sum_lamports(
        accs.push(a).drop_first(),
    ));
    if accs.len() == 0 {
        assert(accs.push(a).drop_first() =~= Seq::<Account>::empty());
        assert(accs.push(a)[0] == a);
    } else {
        assert(accs.push(a).drop_first() =~= accs.drop_first().push(a));
        lemma_sum_push(accs.drop_first(), a);
        assert(accs.push(a)[0] == accs[0]);
    }
}

pub proof fn lemma_sum_update(accs: Seq<Account>, i: int, a: Account)
    requires
        0 <= i < accs.len(),
    ensures
        sum_lamports(accs.update(i, a)) == sum_lamports(accs) - accs[i].lamports + a.lamports,
    decreases accs.len(),
{
    if i == 0 {
        assert(accs.update(0, a).drop_first() =~= accs.drop_first());
    } else {
        assert(accs.update(i, a).drop_first() =~= accs.drop_first().update(i - 1, a));
        lemma_sum_update(accs.drop_first(), i - 1, a);
    }
}

pub proof fn lemma_elem_le_sum(accs: Seq<Account>, i: int)
    requires
        0 <= i < accs.len(),
    ensures
        accs[i].lamports <= sum_lamports(accs),
    decreases accs.len(),
{
    lemma_sum_nonneg(accs.drop_first());
    if i > 0 {
        lemma_elem_le_sum(accs.drop_first(), i - 1);
        lemma_sum_nonneg(accs);
    }
}

pub proof fn lemma_pair_le_sum(accs: Seq<Account>, i: int, j: int)
    requires
        0 <= i < accs.len(),
        0 <= j < accs.len(),
        i != j,
    ensures
        accs[i].lamports + accs[j].lamports <= sum_lamports(accs),
    decreases accs.len(),
{
    if i == 0 {
        lemma_elem_le_sum(accs.drop_first(), j - 1);
    } else if j == 0 {
        lemma_elem_le_sum(accs.drop_first(), i - 1);
    } else {
        lemma_pair_le_sum(accs.drop_first(), i - 1, j - 1);
    }
}

/// With unique addresses, the account at a position is the one its address
/// looks up.
pub proof fn lemma_at_index(accs: Seq<Account>, i: int)
    requires
        unique_addresses(accs),
        0 <= i < accs.len(),
    ensures
        occupied(accs, accs[i].address@),
        index_of(accs, accs[i].address@) == i,
        account_at(accs, accs[i].address@) == accs[i],
{
    assert(0 <= i < accs.len() && accs[i].address@ == accs[i].address@);
    let j = index_of(accs, accs[i].address@);
    if j != i {
        if j < i {
            assert(accs[j].address@ != accs[i].address@);
        } else {
            assert(accs[i].address@ != accs[j].address@);
        }
    }
}

/// Replacing an account with one at the same address leaves every other
/// address's account as it was.
pub proof fn lemma_update_view(accs: Seq<Account>, k: int, f: Account)
    requires
        unique_addresses(accs),
        0 <= k < accs.len(),
        f.address@ == accs[k].address@,
    ensures
        unique_addresses(accs.update(k, f)),
        forall|x: Seq<u8>| occupied(accs.update(k, f), x) == occupied(accs, x),
        account_at(accs.update(k, f), f.address@) == f,
        forall|x: Seq<u8>|
            occupied(accs, x) && x != f.address@ ==> account_at(accs.update(k, f), x)
                == account_at(accs, x),
{
    let new = accs.update(k, f);
    assert forall|i: int, j: int| 0 <= i < j < new.len() implies new[i].address@
        != new[j].address@ by {
        assert(accs[i].address@ != accs[j].address@);
        assert(new[i].address@ == accs[i].address@);
        assert(new[j].address@ == accs[j].address@);
    }
    assert forall|x: Seq<u8>| occupied(new, x) == occupied(accs, x) by {
        if occupied(new, x) {
            let i = choose|i: int| 0 <= i < new.len() && new[i].address@ == x;
            assert(accs[i].address@ == x);
        }
        if occupied(accs, x) {
            let i = choose|i: int| 0 <= i < accs.len() && accs[i].address@ == x;
            assert(new[i].address@ == x);
        }
    }
    lemma_at_index(new, k);
    assert forall|x: Seq<u8>| occupied(accs, x) && x != f.address@ implies account_at(new, x)
        == account_at(accs, x) by {
        let i = index_of(accs, x);
        assert(0 <= i < accs.len() && accs[i].address@ == x);
        assert(i != k);
        assert(new[i] == accs[i]);
        lemma_at_index(new, i);
        lemma_at_index(accs, i);
    }
}

/// Appending an account at a fresh address leaves every occupied address's
/// account as it was.
pub proof fn lemma_push_view(accs: Seq<Account>, n: Account)
    requires
        unique_addresses(accs),
        !occupied(accs, n.address@),
    ensures
        unique_addresses(accs.push(n)),
        occupied(accs.push(n), n.address@),
        account_at(accs.push(n), n.address@) == n,
        forall|x: Seq<u8>|
            x != n.address@ ==> occupied(accs.push(n), x) == occupied(accs, x),
        forall|x: Seq<u8>|
            occupied(accs, x) ==> account_at(accs.push(n), x) == account_at(accs, x),
{
    let new = accs.push(n);
    assert forall|i: int, j: int| 0 <= i < j < new.len() implies new[i].address@
        != new[j].address@ by {
        if j < accs.len() {
            assert(accs[i].address@ != accs[j].address@);
        } else {
            assert(new[j] == n);
            assert(new[i] == accs[i]);
            assert(0 <= i < accs.len() && accs[i].address@ == accs[i].address@);
            if accs[i].address@ == n.address@ {
                assert(occupied(accs, n.address@));
            }
        }
    }
    lemma_at_index(new, accs.len() as int);
    assert forall|x: Seq<u8>| x != n.address@ implies occupied(new, x) == occupied(accs, x) by {
        if occupied(new, x) {
            let i = choose|i: int| 0 <= i < new.len() && new[i].address@ == x;
            assert(i < accs.len());
            assert(accs[i].address@ == x);
        }
        if occupied(accs, x) {
            let i = choose|i: int| 0 <= i < accs.len() && accs[i].address@ == x;
            assert(new[i].address@ == x);
        }
    }
    assert forall|x: Seq<u8>| occupied(accs, x) implies account_at(new, x) == account_at(
        accs,
        x,
    ) by {
        let i = index_of(accs, x);
        assert(0 <= i < accs.len() && accs[i].address@ == x);
        assert(new[i] == accs[i]);
        lemma_at_index(new, i);
        lemma_at_index(accs, i);
    }
}

/// Bytes a journal account is allocated with: an 8-byte class
/// discriminator, owner, streak, two timestamps, the length-prefixed
/// latest idea, and the length-prefixed capped history.
pub const JOURNAL_SPACE: usize = 8 + 32 + 8 + 8 + 8 + (4 + 280) + (4 + 20 * (4 + 280 + 8));

/// Bytes a vault account is allocated with: discriminator, authority,
/// locked flag.
pub const VAULT_SPACE: usize = 8 + 32 + 1;

/// Bytes a post account is allocated with: discriminator and two counters.
pub const TWEET_SPACE: usize = 8 + 8 + 8;

/// Bytes a comment account is allocated with: discriminator, author,
/// parent, length-prefixed content, bump.
pub const COMMENT_SPACE: usize = 8 + 32 + 32 + (4 + 280) + 1;

/// Bytes a reaction account is allocated with: discriminator, author,
/// parent, kind, bump.
pub const REACTION_SPACE: usize = 8 + 32 + 32 + 1 + 1;

/// The exact number of bytes an account of the record's class is allocated
/// with: every field is bounded, so the size is computable before
/// creation.
pub open spec fn spec_record_space(r: Record) -> usize {
    match r {
        Record::Journal(_) => JOURNAL_SPACE,
        Record::Vault(_) => VAULT_SPACE,
        Record::Tweet(_) => TWEET_SPACE,
        Record::Comment(_) => COMMENT_SPACE,
        Record::Reaction(_) => REACTION_SPACE,
    }
}

/// See `spec_record_space`.
pub fn record_space(r: &Record) -> (s: usize)
    ensures
        s == spec_record_space(*r),
{
    match r {
        Record::Journal(_) => JOURNAL_SPACE,
        Record::Vault(_) => VAULT_SPACE,
        Record::Tweet(_) => TWEET_SPACE,
        Record::Comment(_) => COMMENT_SPACE,
        Record::Reaction(_) => REACTION_SPACE,
    }
}

/// The same accounts, holdings and program: nothing observable changed.
pub open spec fn same_state(pre: Store, post: Store) -> bool {
    &&& post.program_id == pre.program_id
    &&& post.total_lamports == pre.total_lamports
    &&& post.accounts@ == pre.accounts@
}

/// The record occupying the address, if any.
pub open spec fn stored_record(accs: Seq<Account>, addr: Seq<u8>) -> Option<Record> {
    if occupied(accs, addr) {
        account_at(accs, addr).record
    } else {
        None
    }
}

/// What creating a record at a derived address does, for every input: each
/// rejection with the state untouched, or the new account bound and funded
/// from the paying wallet, everything else unchanged.
pub open spec fn creation_outcome(
    pre: Store,
    post: Store,
    addr: Seq<u8>,
    funder: Identity,
    space: nat,
    matches_rec: spec_fn(Record) -> bool,
    r: Result<(), ErrorCode>,
) -> bool {
    &&& (occupied(pre.accounts@, addr) ==> r == Err::<(), ErrorCode>(ErrorCode::AlreadyExists)
        && post == pre)
    &&& (!occupied(pre.accounts@, addr) && !occupied(pre.accounts@, funder@) ==> r == Err::<
        (),
        ErrorCode,
    >(ErrorCode::RecordNotFound) && post == pre)
    &&& (!occupied(pre.accounts@, addr) && occupied(pre.accounts@, funder@) && account_at(
        pre.accounts@,
        funder@,
    ).record is Some ==> r == Err::<(), ErrorCode>(ErrorCode::Unauthorized) && post == pre)
    &&& (!occupied(pre.accounts@, addr) && occupied(pre.accounts@, funder@) && account_at(
        pre.accounts@,
        funder@,
    ).record is None && account_at(pre.accounts@, funder@).lamports < rent_exempt_minimum(space)
        ==> r == Err::<(), ErrorCode>(ErrorCode::InsufficientBalance) && post == pre)
    &&& (!occupied(pre.accounts@, addr) && occupied(pre.accounts@, funder@) && account_at(
        pre.accounts@,
        funder@,
    ).record is None && account_at(pre.accounts@, funder@).lamports >= rent_exempt_minimum(space)
        ==> {
        &&& r == Ok::<(), ErrorCode>(())
        &&& occupied(post.accounts@, addr)
        &&& account_at(post.accounts@, addr).address@ == addr
        &&& account_at(post.accounts@, addr).lamports == rent_exempt_minimum(space)
        &&& (match account_at(post.accounts@, addr).record {
            Some(rec) => matches_rec(rec),
            None => false,
        })
        &&& account_at(post.accounts@, funder@) == (Account {
            lamports: (account_at(pre.accounts@, funder@).lamports - rent_exempt_minimum(
                space,
            )) as u64,
            ..account_at(pre.accounts@, funder@)
        })
        &&& (forall|x: Seq<u8>|
            x != addr ==> occupied(post.accounts@, x) == occupied(pre.accounts@, x))
        &&& (forall|x: Seq<u8>|
            occupied(pre.accounts@, x) && x != funder@ ==> account_at(post.accounts@, x)
                == account_at(pre.accounts@, x))
    })
}

/// What `add_reaction` does, for every input: each rejection with the
/// state untouched, or the reaction record created and, unless the
/// checked counter overflows, the parent's counter advanced by one. On
/// overflow the created record persists while the counters stay.
pub open spec fn reaction_outcome(
    pre: Store,
    post: Store,
    author: Identity,
    tweet_address: Identity,
    kind: ReactionKind,
    r: Result<(), ErrorCode>,
) -> bool {
    match stored_record(pre.accounts@, tweet_address@) {
                Some(Record::Tweet(t)) => match pda_of(
                    reaction_seeds(author@, tweet_address@),
                    pre.program_id@,
                ) {
                    None => r == Err::<(), ErrorCode>(ErrorCode::AddressUnavailable)
                        && same_state(pre, post),
                    Some(ab) => {
                        &&& (occupied(pre.accounts@, ab.0) ==> r == Err::<(), ErrorCode>(
                            ErrorCode::AlreadyExists,
                        ) && same_state(pre, post))
                        &&& (!occupied(pre.accounts@, ab.0) && !occupied(
                            pre.accounts@,
                            author@,
                        ) ==> r == Err::<(), ErrorCode>(ErrorCode::RecordNotFound) && same_state(
                            pre,
                            post,
                        ))
                        &&& (!occupied(pre.accounts@, ab.0) && occupied(
                            pre.accounts@,
                            author@,
                        ) && account_at(pre.accounts@, author@).record is Some ==> r
                            == Err::<(), ErrorCode>(ErrorCode::Unauthorized) && same_state(
                            pre,
                            post,
                        ))
                        &&& (!occupied(pre.accounts@, ab.0) && occupied(
                            pre.accounts@,
                            author@,
                        ) && account_at(pre.accounts@, author@).record is None
                            && account_at(pre.accounts@, author@).lamports
                            < rent_exempt_minimum(REACTION_SPACE as nat) ==> r == Err::<
                            (),
                            ErrorCode,
                        >(ErrorCode::InsufficientBalance) && same_state(
                            pre,
                            post,
                        ))
                        &&& (!occupied(pre.accounts@, ab.0) && occupied(
                            pre.accounts@,
                            author@,
                        ) && account_at(pre.accounts@, author@).record is None
                            && account_at(pre.accounts@, author@).lamports
                            >= rent_exempt_minimum(REACTION_SPACE as nat) ==> {
                            &&& occupied(post.accounts@, ab.0)
                            &&& account_at(post.accounts@, ab.0).address@ == ab.0
                            &&& account_at(post.accounts@, ab.0).lamports
                                == rent_exempt_minimum(REACTION_SPACE as nat)
                            &&& (match account_at(post.accounts@, ab.0).record {
                                Some(Record::Reaction(re)) => {
                                    &&& re.reaction_author == author
                                    &&& re.parent_tweet == tweet_address
                                    &&& re.reaction == kind
                                    &&& re.bump == ab.1
                                },
                                _ => false,
                            })
                            &&& account_at(post.accounts@, author@) == (Account {
                                lamports: (account_at(pre.accounts@, author@).lamports
                                    - rent_exempt_minimum(REACTION_SPACE as nat)) as u64,
                                ..account_at(pre.accounts@, author@)
                            })
                            &&& account_at(post.accounts@, tweet_address@).address
                                == account_at(pre.accounts@, tweet_address@).address
                            &&& account_at(post.accounts@, tweet_address@).lamports
                                == account_at(pre.accounts@, tweet_address@).lamports
                            &&& (match account_at(post.accounts@, tweet_address@).record {
                                Some(Record::Tweet(t2)) => if kind == ReactionKind::Like {
                                    if t.likes < u64::MAX {
                                        r == Ok::<(), ErrorCode>(()) && t2.likes == t.likes + 1
                                            && t2.dislikes == t.dislikes
                                    } else {
                                        r == Err::<(), ErrorCode>(ErrorCode::MaxReached) && t2
                                            == t
                                    }
                                } else {
                                    if t.dislikes < u64::MAX {
                                        r == Ok::<(), ErrorCode>(()) && t2.dislikes == t.dislikes
                                            + 1 && t2.likes == t.likes
                                    } else {
                                        r == Err::<(), ErrorCode>(ErrorCode::MaxReached) && t2
                                            == t
                                    }
                                },
                                _ => false,
                            })
                            &&& (forall|x: Seq<u8>|
                                x != ab.0 ==> occupied(post.accounts@, x) == occupied(
                                    pre.accounts@,
                                    x,
                                ))
                            &&& (forall|x: Seq<u8>|
                                occupied(pre.accounts@, x) && x != author@ && x
                                    != tweet_address@ ==> account_at(post.accounts@, x)
                                    == account_at(pre.accounts@, x))
                        })
                    },
                },
                _ => r == Err::<(), ErrorCode>(ErrorCode::RecordNotFound) && same_state(
                    pre,
                    post,
                ),
            }
}

impl Store {
    /// Unique addresses, and a running total that matches the sum of all
    /// holdings; established by `new` and preserved by every operation.
    pub open spec fn wf(self) -> bool {
        &&& unique_addresses(self.accounts@)
        &&& sum_lamports(self.accounts@) == self.total_lamports
    }

    /// An empty store for a program instance.
    pub fn new(program_id: Identity) -> (s: Store)
        ensures
            s.wf(),
            s.program_id == program_id,
            s.accounts@ == Seq::<Account>::empty(),
            s.total_lamports == 0,
    {
        Store { program_id, accounts: Vec::new(), total_lamports: 0 }
    }

    /// The position of the account at the address, if any.
    fn find_index(&self, addr: &Identity) -> (r: Option<usize>)
        ensures
            match r {
                Some(i) => 0 <= i < self.accounts@.len() && self.accounts@[i as int].address@
                    == addr@,
                None => !occupied(self.accounts@, addr@),
            },
    {
        let mut i: usize = 0;
        while i < self.accounts.len()
            invariant
                i <= self.accounts@.len(),
                forall|k: int| 0 <= k < i ==> self.accounts@[k].address@ != addr@,
            decreases self.accounts@.len() - i,
        {
            if self.accounts[i].address.eq_bytes(addr) {
                return Some(i);
            }
            i += 1;
        }
        None
    }

    /// The sequencer handing the store a funded wallet at a previously
    /// unbound address.
    pub fn add_wallet(&mut self, address: Identity, lamports: u64) -> (r: Result<
        (),
        ErrorCode,
    >)
        requires
            old(self).wf(),
        ensures
            final(self).wf(),
            final(self).program_id == old(self).program_id,
            occupied(old(self).accounts@, address@) ==> r == Err::<(), ErrorCode>(
                ErrorCode::AlreadyExists,
            ) && *final(self) == *old(self),
            !occupied(old(self).accounts@, address@) && old(self).total_lamports + lamports
                > u64::MAX ==> r == Err::<(), ErrorCode>(ErrorCode::MaxReached) && *final(self)
                == *old(self),
            !occupied(old(self).accounts@, address@) && old(self).total_lamports + lamports
                <= u64::MAX ==> {
                &&& r == Ok::<(), ErrorCode>(())
                &&& final(self).total_lamports == old(self).total_lamports + lamports
                &&& occupied(final(self).accounts@, address@)
                &&& account_at(final(self).accounts@, address@) == (Account {
                    address,
                    lamports,
                    record: None,
                })
                &&& forall|x: Seq<u8>|
                    x != address@ ==> occupied(final(self).accounts@, x) == occupied(
                        old(self).accounts@,
                        x,
                    )
                &&& forall|x: Seq<u8>|
                    occupied(old(self).accounts@, x) ==> account_at(final(self).accounts@, x)
                        == account_at(old(self).accounts@, x)
            },
    {
        if self.find_index(&address).is_some() {
            return Err(ErrorCode::AlreadyExists);
        }
        match self.total_lamports.checked_add(lamports) {
            None => Err(ErrorCode::MaxReached),
            Some(t) => {
                let acc = Account { address, lamports, record: None };
                proof {
                    lemma_sum_push(self.accounts@, acc);
                    lemma_push_view(self.accounts@, acc);
                }
                self.accounts.push(acc);
                self.total_lamports = t;
                Ok(())
            },
        }
    }

    /// Creates a record: fails if the address is occupied, finds the paying
    /// wallet, takes from it the one-time deposit the record's size
    /// requires, and binds the new account. Only a plain wallet can pay:
    /// the native primitive refuses to move funds out of an account that
    /// carries a record.
    pub fn create(&mut self, address: Identity, funder: Identity, record: Record) -> (r: Result<
        (),
        ErrorCode,
    >)
        requires
            old(self).wf(),
        ensures
            final(self).wf(),
            final(self).program_id == old(self).program_id,
            final(self).total_lamports == old(self).total_lamports,
            occupied(old(self).accounts@, address@) ==> r == Err::<(), ErrorCode>(
                ErrorCode::AlreadyExists,
            ) && *final(self) == *old(self),
            !occupied(old(self).accounts@, address@) && !occupied(old(self).accounts@, funder@)
                ==> r == Err::<(), ErrorCode>(ErrorCode::RecordNotFound) && *final(self) == *old(
                self,
            ),
            !occupied(old(self).accounts@, address@) && occupied(old(self).accounts@, funder@)
                && account_at(old(self).accounts@, funder@).record is Some ==> r == Err::<
                (),
                ErrorCode,
            >(ErrorCode::Unauthorized) && *final(self) == *old(self),
            !occupied(old(self).accounts@, address@) && occupied(old(self).accounts@, funder@)
                && account_at(old(self).accounts@, funder@).record is None && account_at(
                old(self).accounts@,
                funder@,
            ).lamports < rent_exempt_minimum(spec_record_space(record) as nat) ==> r == Err::<
                (),
                ErrorCode,
            >(ErrorCode::InsufficientBalance) && *final(self) == *old(self),
            !occupied(old(self).accounts@, address@) && occupied(old(self).accounts@, funder@)
                && account_at(old(self).accounts@, funder@).record is None && account_at(
                old(self).accounts@,
                funder@,
            ).lamports >= rent_exempt_minimum(spec_record_space(record) as nat) ==> {
                &&& r == Ok::<(), ErrorCode>(())
                &&& occupied(final(self).accounts@, address@)
                &&& account_at(final(self).accounts@, address@) == (Account {
                    address,
                    lamports: rent_exempt_minimum(spec_record_space(record) as nat),
                    record: Some(record),
                })
                &&& account_at(final(self).accounts@, funder@) == (Account {
                    lamports: (account_at(old(self).accounts@, funder@).lamports
                        - rent_exempt_minimum(spec_record_space(record) as nat)) as u64,
                    ..account_at(old(self).accounts@, funder@)
                })
                &&& forall|x: Seq<u8>|
                    x != address@ ==> occupied(final(self).accounts@, x) == occupied(
                        old(self).accounts@,
                        x,
                    )
                &&& forall|x: Seq<u8>|
                    occupied(old(self).accounts@, x) && x != funder@ ==> account_at(
                        final(self).accounts@,
                        x,
                    ) == account_at(old(self).accounts@, x)
            },
    {
        if self.find_index(&address).is_some() {
            return Err(ErrorCode::AlreadyExists);
        }
        let fi = match self.find_index(&funder) {
            None => {
                return Err(ErrorCode::RecordNotFound);
            },
            Some(fi) => fi,
        };
        proof {
            lemma_at_index(self.accounts@, fi as int);
        }
        if self.accounts[fi].record.is_some() {
            return Err(ErrorCode::Unauthorized);
        }
        let space = record_space(&record);
        let fund = rent_minimum(space);
        let funder_lamports = self.accounts[fi].lamports;
        if funder_lamports < fund {
            return Err(ErrorCode::InsufficientBalance);
        }
        let ghost pre = self.accounts@;
        let funder_address = self.accounts[fi].address;
        let debited = Account {
            address: funder_address,
            lamports: funder_lamports - fund,
            record: None,
        };
        proof {
            assert(debited.address@ == pre[fi as int].address@);
            lemma_sum_update(pre, fi as int, debited);
            lemma_update_view(pre, fi as int, debited);
        }
        self.accounts[fi] = debited;
        let acc = Account { address, lamports: fund, record: Some(record) };
        proof {
            lemma_sum_push(self.accounts@, acc);
            lemma_push_view(self.accounts@, acc);
        }
        self.accounts.push(acc);
        Ok(())
    }

    /// Creates the caller's journal at its derived address, funded by the
    /// owner, with streak 0 and an empty history.
    pub fn initialize_journal(&mut self, owner: Identity, now: i64) -> (r: Result<
        (),
        ErrorCode,
    >)
        requires
            old(self).wf(),
        ensures
            final(self).wf(),
            final(self).program_id == old(self).program_id,
            final(self).total_lamports == old(self).total_lamports,
            (match pda_of(journal_seeds(owner@), old(self).program_id@) {
                None => r == Err::<(), ErrorCode>(ErrorCode::AddressUnavailable) && *final(self)
                    == *old(self),
                Some(ab) => creation_outcome(
                    *old(self),
                    *final(self),
                    ab.0,
                    owner,
                    JOURNAL_SPACE as nat,
                    (|rec: Record|
                        match rec {
                            Record::Journal(j) => fresh_journal(j, owner, now),
                            _ => false,
                        }),
                    r,
                ),
            }),
    {
        let sv = journal_seed_vec(&owner);
        let pid = self.program_id;
        let addr = match derive_pda(&sv, &pid) {
            None => {
                return Err(ErrorCode::AddressUnavailable);
            },
            Some(p) => p.0,
        };
        self.create(addr, owner, Record::Journal(Journal::fresh(owner, now)))
    }

    /// Creates the caller's vault at its derived address, funded by the
    /// authority, unlocked.
    pub fn initialize_vault(&mut self, authority: Identity) -> (r: Result<(), ErrorCode>)
        requires
            old(self).wf(),
        ensures
            final(self).wf(),
            final(self).program_id == old(self).program_id,
            final(self).total_lamports == old(self).total_lamports,
            (match pda_of(vault_seeds(authority@), old(self).program_id@) {
                None => r == Err::<(), ErrorCode>(ErrorCode::AddressUnavailable) && *final(self)
                    == *old(self),
                Some(ab) => creation_outcome(
                    *old(self),
                    *final(self),
                    ab.0,
                    authority,
                    VAULT_SPACE as nat,
                    (|rec: Record|
                        match rec {
                            Record::Vault(v) => v.vault_authority == authority && !v.locked,
                            _ => false,
                        }),
                    r,
                ),
            }),
    {
        let sv = vault_seed_vec(&authority);
        let pid = self.program_id;
        let addr = match derive_pda(&sv, &pid) {
            None => {
                return Err(ErrorCode::AddressUnavailable);
            },
            Some(p) => p.0,
        };
        self.create(addr, authority, Record::Vault(Vault { vault_authority: authority, locked: false }))
    }

    /// Validates the idea text against the caller's journal, advances the
    /// streak state machine and appends to the capped history. Any
    /// rejection leaves every account untouched.
    pub fn log_idea(&mut self, user: Identity, text: Vec<u8>, now: i64) -> (r: Result<
        (),
        ErrorCode,
    >)
        requires
            old(self).wf(),
            forall|i: int|
                0 <= i < old(self).accounts@.len() ==> (match #[trigger] old(
                    self,
                ).accounts@[i].record {
                    Some(Record::Journal(j)) => i64::MIN <= now - j.last_logged <= i64::MAX && ((
                    j.last_logged != 0 && now - j.last_logged <= STREAK_WINDOW_SECONDS)
                        ==> j.streak < u64::MAX),
                    _ => true,
                }),
        ensures
            final(self).wf(),
            final(self).program_id == old(self).program_id,
            final(self).total_lamports == old(self).total_lamports,
            (match pda_of(journal_seeds(user@), old(self).program_id@) {
                None => r == Err::<(), ErrorCode>(ErrorCode::AddressUnavailable) && same_state(
                    *old(self),
                    *final(self),
                ),
                Some(ab) => match stored_record(old(self).accounts@, ab.0) {
                    Some(Record::Journal(j)) => if j.owner@ != user@ {
                        r == Err::<(), ErrorCode>(ErrorCode::Unauthorized) && same_state(
                            *old(self),
                            *final(self),
                        )
                    } else if text@.len() > MAX_TEXT_BYTES {
                        r == Err::<(), ErrorCode>(ErrorCode::IdeaTooLong) && same_state(
                            *old(self),
                            *final(self),
                        )
                    } else if blank(text@) {
                        r == Err::<(), ErrorCode>(ErrorCode::EmptyIdea) && same_state(
                            *old(self),
                            *final(self),
                        )
                    } else {
                        &&& r == Ok::<(), ErrorCode>(())
                        &&& occupied(final(self).accounts@, ab.0)
                        &&& account_at(final(self).accounts@, ab.0).address == account_at(
                            old(self).accounts@,
                            ab.0,
                        ).address
                        &&& account_at(final(self).accounts@, ab.0).lamports == account_at(
                            old(self).accounts@,
                            ab.0,
                        ).lamports
                        &&& (match account_at(final(self).accounts@, ab.0).record {
                            Some(Record::Journal(j2)) => {
                                &&& j2.owner == j.owner
                                &&& j2.created_at == j.created_at
                                &&& j2.streak == next_streak(j.streak, j.last_logged, now)
                                &&& j2.last_logged == now
                                &&& j2.last_idea@ == text@
                                &&& j2.ideas@ == push_capped(
                                    j.ideas@,
                                    (IdeaLog { text: text, timestamp: now }),
                                )
                            },
                            _ => false,
                        })
                        &&& (forall|x: Seq<u8>|
                            occupied(final(self).accounts@, x) == occupied(
                                old(self).accounts@,
                                x,
                            ))
                        &&& (forall|x: Seq<u8>|
                            occupied(old(self).accounts@, x) && x != ab.0 ==> account_at(
                                final(self).accounts@,
                                x,
                            ) == account_at(old(self).accounts@, x))
                    },
                    _ => r == Err::<(), ErrorCode>(ErrorCode::RecordNotFound) && same_state(
                        *old(self),
                        *final(self),
                    ),
                },
            }),
    {
        let sv = journal_seed_vec(&user);
        let pid = self.program_id;
        let addr = match derive_pda(&sv, &pid) {
            None => {
                return Err(ErrorCode::AddressUnavailable);
            },
            Some(p) => p.0,
        };
        let i = match self.find_index(&addr) {
            None => {
                return Err(ErrorCode::RecordNotFound);
            },
            Some(i) => i,
        };
        proof {
            lemma_at_index(self.accounts@, i as int);
        }
        let ghost pre = self.accounts@;
        let res: Result<(), ErrorCode>;
        match &mut self.accounts[i].record {
            Some(Record::Journal(j)) => {
                if !j.owner.eq_bytes(&user) {
                    res = Err(ErrorCode::Unauthorized);
                } else {
                    res = j.record_idea(text, now);
                }
            },
            _ => {
                res = Err(ErrorCode::RecordNotFound);
            },
        }
        proof {
            lemma_sum_update(pre, i as int, self.accounts@[i as int]);
            lemma_update_view(pre, i as int, self.accounts@[i as int]);
            assert(self.accounts@ =~= pre.update(i as int, self.accounts@[i as int]));
            if res is Err {
                assert(self.accounts@ =~= pre);
            }
        }
        res
    }

    /// Moves the amount from the user's wallet into the vault's holding
    /// through the native value-movement primitive: the whole amount moves
    /// or nothing changes. The vault address is recomputed from the
    /// recorded authority, never trusted as given.
    pub fn deposit(&mut self, user: Identity, vault_address: Identity, amount: u64) -> (r: Result<
        (),
        ErrorCode,
    >)
        requires
            old(self).wf(),
        ensures
            final(self).wf(),
            final(self).program_id == old(self).program_id,
            final(self).total_lamports == old(self).total_lamports,
            (match stored_record(old(self).accounts@, vault_address@) {
                Some(Record::Vault(v)) => match pda_of(
                    vault_seeds(v.vault_authority@),
                    old(self).program_id@,
                ) {
                    None => r == Err::<(), ErrorCode>(ErrorCode::AddressUnavailable)
                        && same_state(*old(self), *final(self)),
                    Some(ab) => if ab.0 != vault_address@ {
                        r == Err::<(), ErrorCode>(ErrorCode::AddressMismatch) && same_state(
                            *old(self),
                            *final(self),
                        )
                    } else if v.locked {
                        r == Err::<(), ErrorCode>(ErrorCode::Locked) && same_state(
                            *old(self),
                            *final(self),
                        )
                    } else if !occupied(old(self).accounts@, user@) {
                        r == Err::<(), ErrorCode>(ErrorCode::RecordNotFound) && same_state(
                            *old(self),
                            *final(self),
                        )
                    } else if account_at(old(self).accounts@, user@).record is Some {
                        r == Err::<(), ErrorCode>(ErrorCode::Unauthorized) && same_state(
                            *old(self),
                            *final(self),
                        )
                    } else if account_at(old(self).accounts@, user@).lamports < amount {
                        r == Err::<(), ErrorCode>(ErrorCode::InsufficientBalance) && same_state(
                            *old(self),
                            *final(self),
                        )
                    } else {
                        &&& r == Ok::<(), ErrorCode>(())
                        &&& account_at(old(self).accounts@, vault_address@).lamports + amount
                            <= u64::MAX
                        &&& account_at(final(self).accounts@, user@) == (Account {
                            lamports: (account_at(old(self).accounts@, user@).lamports
                                - amount) as u64,
                            ..account_at(old(self).accounts@, user@)
                        })
                        &&& account_at(final(self).accounts@, vault_address@) == (Account {
                            lamports: (account_at(old(self).accounts@, vault_address@).lamports
                                + amount) as u64,
                            ..account_at(old(self).accounts@, vault_address@)
                        })
                        &&& (forall|x: Seq<u8>|
                            occupied(final(self).accounts@, x) == occupied(
                                old(self).accounts@,
                                x,
                            ))
                        &&& (forall|x: Seq<u8>|
                            occupied(old(self).accounts@, x) && x != user@ && x
                                != vault_address@ ==> account_at(final(self).accounts@, x)
                                == account_at(old(self).accounts@, x))
                    },
                },
                _ => r == Err::<(), ErrorCode>(ErrorCode::RecordNotFound) && same_state(
                    *old(self),
                    *final(self),
                ),
            }),
    {
        let vi = match self.find_index(&vault_address) {
            None => {
                return Err(ErrorCode::RecordNotFound);
            },
            Some(v) => v,
        };
        proof {
            lemma_at_index(self.accounts@, vi as int);
        }
        let (vault_authority, locked) = match &self.accounts[vi].record {
            Some(Record::Vault(v)) => (v.vault_authority, v.locked),
            _ => {
                return Err(ErrorCode::RecordNotFound);
            },
        };
        let sv = vault_seed_vec(&vault_authority);
        let pid = self.program_id;
        let derived = match derive_pda(&sv, &pid) {
            None => {
                return Err(ErrorCode::AddressUnavailable);
            },
            Some(p) => p.0,
        };
        if !derived.eq_bytes(&vault_address) {
            return Err(ErrorCode::AddressMismatch);
        }
        if locked {
            return Err(ErrorCode::Locked);
        }
        let ui = match self.find_index(&user) {
            None => {
                return Err(ErrorCode::RecordNotFound);
            },
            Some(u) => u,
        };
        proof {
            lemma_at_index(self.accounts@, ui as int);
        }
        if self.accounts[ui].record.is_some() {
            return Err(ErrorCode::Unauthorized);
        }
        let user_lamports = self.accounts[ui].lamports;
        if user_lamports < amount {
            return Err(ErrorCode::InsufficientBalance);
        }
        proof {
            assert(ui != vi);
            lemma_pair_le_sum(self.accounts@, ui as int, vi as int);
        }
        let ghost pre = self.accounts@;
        let vault_lamports = self.accounts[vi].lamports;
        self.accounts[ui].lamports = user_lamports - amount;
        proof {
            lemma_sum_update(pre, ui as int, self.accounts@[ui as int]);
            lemma_update_view(pre, ui as int, self.accounts@[ui as int]);
        }
        let ghost mid = self.accounts@;
        self.accounts[vi].lamports = vault_lamports + amount;
        proof {
            lemma_sum_update(mid, vi as int, self.accounts@[vi as int]);
            lemma_update_view(mid, vi as int, self.accounts@[vi as int]);
        }
        Ok(())
    }

    /// Moves the amount out of the vault's actual holding into the
    /// recorded authority's wallet, directly and atomically. Fails
    /// whatever the balance while the vault is locked.
    pub fn withdraw(&mut self, vault_authority: Identity, vault_address: Identity, amount: u64) -> (r:
        Result<(), ErrorCode>)
        requires
            old(self).wf(),
        ensures
            final(self).wf(),
            final(self).program_id == old(self).program_id,
            final(self).total_lamports == old(self).total_lamports,
            (match pda_of(vault_seeds(vault_authority@), old(self).program_id@) {
                None => r == Err::<(), ErrorCode>(ErrorCode::AddressUnavailable) && same_state(
                    *old(self),
                    *final(self),
                ),
                Some(ab) => if ab.0 != vault_address@ {
                    r == Err::<(), ErrorCode>(ErrorCode::AddressMismatch) && same_state(
                        *old(self),
                        *final(self),
                    )
                } else {
                    match stored_record(old(self).accounts@, ab.0) {
                        Some(Record::Vault(v)) => if v.locked {
                            r == Err::<(), ErrorCode>(ErrorCode::Locked) && same_state(
                                *old(self),
                                *final(self),
                            )
                        } else if v.vault_authority@ != vault_authority@ {
                            r == Err::<(), ErrorCode>(ErrorCode::Unauthorized) && same_state(
                                *old(self),
                                *final(self),
                            )
                        } else if !occupied(old(self).accounts@, vault_authority@) {
                            r == Err::<(), ErrorCode>(ErrorCode::RecordNotFound) && same_state(
                                *old(self),
                                *final(self),
                            )
                        } else if account_at(
                            old(self).accounts@,
                            vault_authority@,
                        ).record is Some {
                            r == Err::<(), ErrorCode>(ErrorCode::Unauthorized) && same_state(
                                *old(self),
                                *final(self),
                            )
                        } else if account_at(old(self).accounts@, ab.0).lamports < amount {
                            r == Err::<(), ErrorCode>(ErrorCode::InsufficientBalance)
                                && same_state(*old(self), *final(self))
                        } else {
                            &&& r == Ok::<(), ErrorCode>(())
                            &&& account_at(old(self).accounts@, vault_authority@).lamports
                                + amount <= u64::MAX
                            &&& account_at(final(self).accounts@, ab.0) == (Account {
                                lamports: (account_at(old(self).accounts@, ab.0).lamports
                                    - amount) as u64,
                                ..account_at(old(self).accounts@, ab.0)
                            })
                            &&& account_at(final(self).accounts@, vault_authority@) == (Account {
                                lamports: (account_at(
                                    old(self).accounts@,
                                    vault_authority@,
                                ).lamports + amount) as u64,
                                ..account_at(old(self).accounts@, vault_authority@)
                            })
                            &&& (forall|x: Seq<u8>|
                                occupied(final(self).accounts@, x) == occupied(
                                    old(self).accounts@,
                                    x,
                                ))
                            &&& (forall|x: Seq<u8>|
                                occupied(old(self).accounts@, x) && x != vault_authority@ && x
                                    != ab.0 ==> account_at(final(self).accounts@, x)
                                    == account_at(old(self).accounts@, x))
                        },
                        _ => r == Err::<(), ErrorCode>(ErrorCode::RecordNotFound) && same_state(
                            *old(self),
                            *final(self),
                        ),
                    }
                },
            }),
    {
        let sv = vault_seed_vec(&vault_authority);
        let pid = self.program_id;
        let derived = match derive_pda(&sv, &pid) {
            None => {
                return Err(ErrorCode::AddressUnavailable);
            },
            Some(p) => p.0,
        };
        if !derived.eq_bytes(&vault_address) {
            return Err(ErrorCode::AddressMismatch);
        }
        let vi = match self.find_index(&derived) {
            None => {
                return Err(ErrorCode::RecordNotFound);
            },
            Some(v) => v,
        };
        proof {
            lemma_at_index(self.accounts@, vi as int);
        }
        let (recorded_authority, locked) = match &self.accounts[vi].record {
            Some(Record::Vault(v)) => (v.vault_authority, v.locked),
            _ => {
                return Err(ErrorCode::RecordNotFound);
            },
        };
        if locked {
            return Err(ErrorCode::Locked);
        }
        if !recorded_authority.eq_bytes(&vault_authority) {
            return Err(ErrorCode::Unauthorized);
        }
        let ai = match self.find_index(&vault_authority) {
            None => {
                return Err(ErrorCode::RecordNotFound);
            },
            Some(a) => a,
        };
        proof {
            lemma_at_index(self.accounts@, ai as int);
        }
        if self.accounts[ai].record.is_some() {
            return Err(ErrorCode::Unauthorized);
        }
        let vault_lamports = self.accounts[vi].lamports;
        if vault_lamports < amount {
            return Err(ErrorCode::InsufficientBalance);
        }
        proof {
            assert(ai != vi);
            lemma_pair_le_sum(self.accounts@, ai as int, vi as int);
        }
        let ghost pre = self.accounts@;
        let authority_lamports = self.accounts[ai].lamports;
        self.accounts[vi].lamports = vault_lamports - amount;
        proof {
            lemma_sum_update(pre, vi as int, self.accounts@[vi as int]);
            lemma_update_view(pre, vi as int, self.accounts@[vi as int]);
        }
        let ghost mid = self.accounts@;
        self.accounts[ai].lamports = authority_lamports + amount;
        proof {
            lemma_sum_update(mid, ai as int, self.accounts@[ai as int]);
            lemma_update_view(mid, ai as int, self.accounts@[ai as int]);
        }
        Ok(())
    }

    /// Validates the content, recomputes the comment's address from the
    /// author, the content's fingerprint and the parent, refuses a
    /// caller-supplied address that disagrees, and creates the comment
    /// record funded by the author. An occupied address means the same
    /// author already commented this content on this parent.
    pub fn add_comment(
        &mut self,
        author: Identity,
        comment_address: Identity,
        tweet_address: Identity,
        content: Vec<u8>,
    ) -> (r: Result<(), ErrorCode>)
        requires
            old(self).wf(),
        ensures
            final(self).wf(),
            final(self).program_id == old(self).program_id,
            final(self).total_lamports == old(self).total_lamports,
            (match stored_record(old(self).accounts@, tweet_address@) {
                Some(Record::Tweet(_)) => if content@.len() > MAX_TEXT_BYTES {
                    r == Err::<(), ErrorCode>(ErrorCode::CommentTooLong) && same_state(
                        *old(self),
                        *final(self),
                    )
                } else {
                    match pda_of(
                        comment_seeds(author@, content@, tweet_address@),
                        old(self).program_id@,
                    ) {
                        None => r == Err::<(), ErrorCode>(ErrorCode::AddressUnavailable)
                            && same_state(*old(self), *final(self)),
                        Some(ab) => if ab.0 != comment_address@ {
                            r == Err::<(), ErrorCode>(ErrorCode::AddressMismatch) && same_state(
                                *old(self),
                                *final(self),
                            )
                        } else {
                            creation_outcome(
                                *old(self),
                                *final(self),
                                ab.0,
                                author,
                                COMMENT_SPACE as nat,
                                (|rec: Record|
                                    match rec {
                                        Record::Comment(c) => {
                                            &&& c.comment_author == author
                                            &&& c.parent_tweet == tweet_address
                                            &&& c.content@ == content@
                                            &&& c.bump == ab.1
                                        },
                                        _ => false,
                                    }),
                                r,
                            )
                        },
                    }
                },
                _ => r == Err::<(), ErrorCode>(ErrorCode::RecordNotFound) && same_state(
                    *old(self),
                    *final(self),
                ),
            }),
    {
        let ti = match self.find_index(&tweet_address) {
            None => {
                return Err(ErrorCode::RecordNotFound);
            },
            Some(t) => t,
        };
        proof {
            lemma_at_index(self.accounts@, ti as int);
        }
        match &self.accounts[ti].record {
            Some(Record::Tweet(_)) => (),
            _ => {
                return Err(ErrorCode::RecordNotFound);
            },
        }
        if content.len() > MAX_TEXT_BYTES {
            return Err(ErrorCode::CommentTooLong);
        }
        let fingerprint = content_fingerprint(&content);
        let sv = comment_seed_vec(&author, &fingerprint, &tweet_address);
        proof {
            assert(sv.deep_view() =~~= comment_seeds(author@, content@, tweet_address@));
        }
        let pid = self.program_id;
        let (addr, bump) = match derive_pda(&sv, &pid) {
            None => {
                return Err(ErrorCode::AddressUnavailable);
            },
            Some(p) => p,
        };
        if !addr.eq_bytes(&comment_address) {
            return Err(ErrorCode::AddressMismatch);
        }
        self.create(
            addr,
            author,
            Record::Comment(
                Comment {
                    comment_author: author,
                    parent_tweet: tweet_address,
                    content,
                    bump,
                },
            ),
        )
    }

    /// Creates the author's reaction record at its derived address, which
    /// enforces one reaction per (author, parent) pair, then increments
    /// the parent's counter with checked arithmetic. A counter overflow
    /// leaves the already created reaction record in place and the
    /// counters untouched.
    pub fn add_reaction(&mut self, author: Identity, tweet_address: Identity, kind: ReactionKind) -> (r:
        Result<(), ErrorCode>)
        requires
            old(self).wf(),
        ensures
            final(self).wf(),
            final(self).program_id == old(self).program_id,
            final(self).total_lamports == old(self).total_lamports,
            reaction_outcome(*old(self), *final(self), author, tweet_address, kind, r),
    {
        let ti = match self.find_index(&tweet_address) {
            None => {
                return Err(ErrorCode::RecordNotFound);
            },
            Some(t) => t,
        };
        proof {
            lemma_at_index(self.accounts@, ti as int);
        }
        match &self.accounts[ti].record {
            Some(Record::Tweet(_)) => (),
            _ => {
                return Err(ErrorCode::RecordNotFound);
            },
        }
        let sv = reaction_seed_vec(&author, &tweet_address);
        let pid = self.program_id;
        let (addr, bump) = match derive_pda(&sv, &pid) {
            None => {
                return Err(ErrorCode::AddressUnavailable);
            },
            Some(p) => p,
        };
        match self.create(
            addr,
            author,
            Record::Reaction(
                Reaction {
                    reaction_author: author,
                    parent_tweet: tweet_address,
                    reaction: kind,
                    bump,
                },
            ),
        ) {
            Err(e) => {
                return Err(e);
            },
            Ok(()) => (),
        }
        let ti2 = match self.find_index(&tweet_address) {
            None => {
                proof {
                    assert(false);
                }
                return Err(ErrorCode::RecordNotFound);
            },
            Some(t) => t,
        };
        proof {
            lemma_at_index(self.accounts@, ti2 as int);
        }
        let ghost mid = self.accounts@;
        let res: Result<(), ErrorCode>;
        match &mut self.accounts[ti2].record {
            Some(Record::Tweet(t)) => {
                res = t.apply_reaction(kind);
            },
            _ => {
                proof {
                    assert(false);
                }
                res = Err(ErrorCode::RecordNotFound);
            },
        }
        proof {
            lemma_sum_update(mid, ti2 as int, self.accounts@[ti2 as int]);
            lemma_update_view(mid, ti2 as int, self.accounts@[ti2 as int]);
        }
        res
    }

    /// Read-only projection of the caller's journal: its owner and streak.
    pub fn get_streak(&self, user: Identity) -> (r: Result<(Identity, u64), ErrorCode>)
        requires
            self.wf(),
        ensures
            (match pda_of(journal_seeds(user@), self.program_id@) {
                None => r == Err::<(Identity, u64), ErrorCode>(ErrorCode::AddressUnavailable),
                Some(ab) => match stored_record(self.accounts@, ab.0) {
                    Some(Record::Journal(j)) => if j.owner@ == user@ {
                        r == Ok::<(Identity, u64), ErrorCode>((j.owner, j.streak))
                    } else {
                        r == Err::<(Identity, u64), ErrorCode>(ErrorCode::Unauthorized)
                    },
                    _ => r == Err::<(Identity, u64), ErrorCode>(ErrorCode::RecordNotFound),
                },
            }),
    {
        let sv = journal_seed_vec(&user);
        let pid = self.program_id;
        let addr = match derive_pda(&sv, &pid) {
            None => {
                return Err(ErrorCode::AddressUnavailable);
            },
            Some(p) => p.0,
        };
        let i = match self.find_index(&addr) {
            None => {
                return Err(ErrorCode::RecordNotFound);
            },
            Some(i) => i,
        };
        proof {
            lemma_at_index(self.accounts@, i as int);
        }
        match &self.accounts[i].record {
            Some(Record::Journal(j)) => {
                if j.owner.eq_bytes(&user) {
                    Ok((j.owner, j.streak))
                } else {
                    Err(ErrorCode::Unauthorized)
                }
            },
            _ => Err(ErrorCode::RecordNotFound),
        }
    }
}

} // verus!
