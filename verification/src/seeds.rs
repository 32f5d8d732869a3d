//! Seed layouts for address derivation: a domain tag, the owning identity,
//! and, per record class, a content fingerprint or a parent reference.

use vstd::prelude::*;

use crate::platform::fingerprint_of;
use crate::Identity;

verus! {

/// The journal domain tag, the bytes of "journal".
pub open spec fn journal_tag() -> Seq<u8> {
    seq![106u8, 111u8, 117u8, 114u8, 110u8, 97u8, 108u8]
}

/// The vault domain tag, the bytes of "vault".
pub open spec fn vault_tag() -> Seq<u8> {
    seq![118u8, 97u8, 117u8, 108u8, 116u8]
}

/// The comment domain tag, the bytes of "comment".
pub open spec fn comment_tag() -> Seq<u8> {
    seq![99u8, 111u8, 109u8, 109u8, 101u8, 110u8, 116u8]
}

/// The reaction domain tag, the bytes of "reaction".
pub open spec fn reaction_tag() -> Seq<u8> {
    seq![114u8, 101u8, 97u8, 99u8, 116u8, 105u8, 111u8, 110u8]
}

/// Seeds of a caller's journal: tag and owner.
pub open spec fn journal_seeds(owner: Seq<u8>) -> Seq<Seq<u8>> {
    seq![journal_tag(), owner]
}

/// Seeds of a caller's vault: tag and authority.
pub open spec fn vault_seeds(authority: Seq<u8>) -> Seq<Seq<u8>> {
    seq![vault_tag(), authority]
}

/// Seeds of a comment: tag, author, content fingerprint, parent. Identical
/// (author, content, parent) triples give identical seeds by construction.
pub open spec fn comment_seeds(author: Seq<u8>, content: Seq<u8>, parent: Seq<u8>) -> Seq<
    Seq<u8>,
> {
    seq![comment_tag(), author, fingerprint_of(content), parent]
}

/// Seeds of a reaction: tag, author, parent. One reaction per (author,
/// parent) pair follows from the derivation being deterministic.
pub open spec fn reaction_seeds(author: Seq<u8>, parent: Seq<u8>) -> Seq<Seq<u8>> {
    seq![reaction_tag(), author, parent]
}

/// The bytes of "journal".
pub fn journal_tag_vec() -> (v: Vec<u8>)
    ensures
        v@ == journal_tag(),
{
    let mut v: Vec<u8> = Vec::new();
    v.push(106);
    v.push(111);
    v.push(117);
    v.push(114);
    v.push(110);
    v.push(97);
    v.push(108);
    proof {
        assert(v@ =~= journal_tag());
    }
    v
}

/// The bytes of "vault".
pub fn vault_tag_vec() -> (v: Vec<u8>)
    ensures
        v@ == vault_tag(),
{
    let mut v: Vec<u8> = Vec::new();
    v.push(118);
    v.push(97);
    v.push(117);
    v.push(108);
    v.push(116);
    proof {
        assert(v@ =~= vault_tag());
    }
    v
}

/// The bytes of "comment".
pub fn comment_tag_vec() -> (v: Vec<u8>)
    ensures
        v@ == comment_tag(),
{
    let mut v: Vec<u8> = Vec::new();
    v.push(99);
    v.push(111);
    v.push(109);
    v.push(109);
    v.push(101);
    v.push(110);
    v.push(116);
    proof {
        assert(v@ =~= comment_tag());
    }
    v
}

/// The bytes of "reaction".
pub fn reaction_tag_vec() -> (v: Vec<u8>)
    ensures
        v@ == reaction_tag(),
{
    let mut v: Vec<u8> = Vec::new();
    v.push(114);
    v.push(101);
    v.push(97);
    v.push(99);
    v.push(116);
    v.push(105);
    v.push(111);
    v.push(110);
    proof {
        assert(v@ =~= reaction_tag());
    }
    v
}

/// Copies an identity's bytes into an owned seed.
pub fn id_seed(id: &Identity) -> (v: Vec<u8>)
    ensures
        v@ == id@,
{
    let mut v: Vec<u8> = Vec::new();
    let mut i: usize = 0;
    while i < 32
        invariant
            i <= 32,
            v@.len() == i,
            forall|k: int| 0 <= k < i ==> v@[k] == id.bytes@[k],
        decreases 32 - i,
    {
        v.push(id.bytes[i]);
        i += 1;
    }
    proof {
        assert(v@ =~= id@);
    }
    v
}

/// Copies a 32-byte fingerprint into an owned seed.
pub fn fingerprint_seed(fp: &[u8; 32]) -> (v: Vec<u8>)
    ensures
        v@ == fp@,
{
    let mut v: Vec<u8> = Vec::new();
    let mut i: usize = 0;
    while i < 32
        invariant
            i <= 32,
            v@.len() == i,
            forall|k: int| 0 <= k < i ==> v@[k] == fp@[k],
        decreases 32 - i,
    {
        v.push(fp[i]);
        i += 1;
    }
    proof {
        assert(v@ =~= fp@);
    }
    v
}

/// Builds the journal seed list for an owner.
pub fn journal_seed_vec(owner: &Identity) -> (v: Vec<Vec<u8>>)
    ensures
        v.deep_view() == journal_seeds(owner@),
{
    let mut v: Vec<Vec<u8>> = Vec::new();
    v.push(journal_tag_vec());
    v.push(id_seed(owner));
    proof {
        assert(v.deep_view() =~~= journal_seeds(owner@));
    }
    v
}

/// Builds the vault seed list for an authority.
pub fn vault_seed_vec(authority: &Identity) -> (v: Vec<Vec<u8>>)
    ensures
        v.deep_view() == vault_seeds(authority@),
{
    let mut v: Vec<Vec<u8>> = Vec::new();
    v.push(vault_tag_vec());
    v.push(id_seed(authority));
    proof {
        assert(v.deep_view() =~~= vault_seeds(authority@));
    }
    v
}

/// Builds the comment seed list from an author, a content fingerprint and
/// the parent reference.
pub fn comment_seed_vec(author: &Identity, fingerprint: &[u8; 32], parent: &Identity) -> (v: Vec<
    Vec<u8>,
>)
    ensures
        v.deep_view() == seq![comment_tag(), author@, fingerprint@, parent@],
{
    let mut v: Vec<Vec<u8>> = Vec::new();
    v.push(comment_tag_vec());
    v.push(id_seed(author));
    v.push(fingerprint_seed(fingerprint));
    v.push(id_seed(parent));
    proof {
        assert(v.deep_view() =~~= seq![comment_tag(), author@, fingerprint@, parent@]);
    }
    v
}

/// Builds the reaction seed list for an author and a parent reference.
pub fn reaction_seed_vec(author: &Identity, parent: &Identity) -> (v: Vec<Vec<u8>>)
    ensures
        v.deep_view() == reaction_seeds(author@, parent@),
{
    let mut v: Vec<Vec<u8>> = Vec::new();
    v.push(reaction_tag_vec());
    v.push(id_seed(author));
    v.push(id_seed(parent));
    proof {
        assert(v.deep_view() =~~= reaction_seeds(author@, parent@));
    }
    v
}

} // verus!
