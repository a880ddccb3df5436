//! Merkle trees over an owner's commitments.
use vstd::prelude::*;
use soroban_sdk::Env;
use crate::common::{Addr, Bytes32, bytes32_eq};
use crate::crypto::{sha256_spec, bytes_of_all, hash_pair};
use crate::ip_registry::types::ContractError;
use super::{IpRegistry, RegistryState};

verus! {

/// Thirty-two zero bytes, the root of an empty tree.
pub open spec fn zero_root() -> Seq<u8> {
    Seq::new(32, |k: int| 0u8)
}

/// The parent of nodes `2k` and `2k + 1` (an odd last node is paired with itself).
pub open spec fn parent_node(l: Seq<Seq<u8>>, k: int) -> Seq<u8> {
    sha256_spec(l[2 * k] + if 2 * k + 1 < l.len() { l[2 * k + 1] } else { l[2 * k] })
}

/// The level above `l`.
pub open spec fn next_level(l: Seq<Seq<u8>>) -> Seq<Seq<u8>> {
    Seq::new(((l.len() + 1) / 2) as nat, |k: int| parent_node(l, k))
}

/// The Merkle root of a list of leaves.
pub open spec fn merkle_root_of(l: Seq<Seq<u8>>) -> Seq<u8>
    decreases l.len(),
{
    if l.len() == 0 {
        zero_root()
    } else if l.len() == 1 {
        l[0]
    } else {
        merkle_root_of(next_level(l))
    }
}

/// The sibling of node `idx` on level `l` (the node itself when it has none).
pub open spec fn sibling_of(l: Seq<Seq<u8>>, idx: int) -> Seq<u8> {
    let sib = if idx % 2 == 0 { idx + 1 } else { idx - 1 };
    if 0 <= sib < l.len() { l[sib] } else { l[idx] }
}

/// The sibling path from leaf `idx` up to the root.
pub open spec fn proof_path(l: Seq<Seq<u8>>, idx: int) -> Seq<Seq<u8>>
    decreases l.len(),
{
    if l.len() <= 1 {
        Seq::empty()
    } else {
        seq![sibling_of(l, idx)] + proof_path(next_level(l), idx / 2)
    }
}

/// The value obtained by folding a sibling path into the node at position
/// `idx`: at each level the current node is hashed on the left when its
/// position is even and on the right when it is odd.
pub open spec fn fold_proof(cur: Seq<u8>, proof: Seq<Seq<u8>>, idx: int) -> Seq<u8>
    decreases proof.len(),
{
    if proof.len() == 0 {
        cur
    } else {
        let next = if idx % 2 == 0 {
            sha256_spec(cur + proof[0])
        } else {
            sha256_spec(proof[0] + cur)
        };
        fold_proof(next, proof.drop_first(), idx / 2)
    }
}

/// A sibling path built for a leaf folds that leaf into the tree's root.
pub proof fn lemma_proof_path_folds_to_root(l: Seq<Seq<u8>>, idx: int)
    requires
        0 <= idx < l.len(),
    ensures
        fold_proof(l[idx], proof_path(l, idx), idx) == merkle_root_of(l),
    decreases l.len(),
{
    if l.len() > 1 {
        let n = next_level(l);
        let p = proof_path(l, idx);
        assert(p[0] == sibling_of(l, idx));
        assert(p.drop_first() =~= proof_path(n, idx / 2));
        let k = idx / 2;
        if idx % 2 == 0 {
            assert(2 * k == idx);
        } else {
            assert(2 * k + 1 == idx);
        }
        assert(n[k] == parent_node(l, k));
        lemma_proof_path_folds_to_root(n, k);
    }
}

/// The commitment hashes of the existing IPs among `ids`, in order.
pub open spec fn leaves_of(s: RegistryState, ids: Seq<u64>) -> Seq<Seq<u8>>
    decreases ids.len(),
{
    if ids.len() == 0 {
        Seq::empty()
    } else {
        let p = leaves_of(s, ids.drop_last());
        if s.has_ip(ids.last()) {
            p.push(s.record(ids.last()).commitment_hash@)
        } else {
            p
        }
    }
}

/// The last position of `h` among `l`, or 0 when it does not occur.
pub open spec fn last_position(l: Seq<Seq<u8>>, h: Seq<u8>) -> int
    decreases l.len(),
{
    if l.len() == 0 {
        0
    } else if l.last() == h {
        l.len() - 1
    } else {
        last_position(l.drop_last(), h)
    }
}

proof fn lemma_last_position_bound(l: Seq<Seq<u8>>, h: Seq<u8>)
    ensures
        l.len() > 0 ==> 0 <= last_position(l, h) < l.len(),
        l.len() == 0 ==> last_position(l, h) == 0,
    decreases l.len(),
{
    if l.len() > 0 {
        lemma_last_position_bound(l.drop_last(), h);
    }
}

/// The level above `level`.
fn build_next_level(env: &Env, level: &Vec<Bytes32>) -> (r: Vec<Bytes32>)
    requires
        level@.len() >= 1,
    ensures
        bytes_of_all(r@) == next_level(bytes_of_all(level@)),
        r@.len() == (level@.len() + 1) / 2,
{
    let ghost l = bytes_of_all(level@);
    let mut next: Vec<Bytes32> = Vec::new();
    let mut i: usize = 0;
    while i < level.len()
        invariant
            l == bytes_of_all(level@),
            0 <= i <= level@.len(),
            i < level@.len() ==> i % 2 == 0 && next@.len() == i / 2,
            i == level@.len() ==> next@.len() == (level@.len() + 1) / 2,
            forall|k: int| 0 <= k < next@.len() ==> (#[trigger] next@[k])@ == parent_node(l, k),
        decreases level@.len() - i,
    {
        let left = level[i];
        let right = if i + 1 < level.len() { level[i + 1] } else { level[i] };
        let h = hash_pair(env, &left, &right);
        proof {
            let k = (i / 2) as int;
            assert(2 * k == i);
            assert(l[2 * k] == left@);
            if 2 * k + 1 < l.len() {
                assert(l[2 * k + 1] == right@);
            }
        }
        next.push(h);
        if i + 1 >= level.len() {
            i = level.len();
        } else {
            i = i + 2;
        }
    }
    assert(bytes_of_all(next@) =~= next_level(l));
    next
}

/// The Merkle root of a list of 32-byte leaves.
pub fn merkle_root(env: &Env, hashes: &Vec<Bytes32>) -> (r: Bytes32)
    ensures
        r@ == merkle_root_of(bytes_of_all(hashes@)),
{
    if hashes.len() == 0 {
        let z = [0u8; 32];
        assert(z@ =~= zero_root());
        return z;
    }
    let mut level: Vec<Bytes32> = Vec::new();
    let mut i: usize = 0;
    while i < hashes.len()
        invariant
            0 <= i <= hashes@.len(),
            level@ == hashes@.subrange(0, i as int),
        decreases hashes@.len() - i,
    {
        level.push(hashes[i]);
        assert(hashes@.subrange(0, (i + 1) as int) =~= hashes@.subrange(0, i as int).push(hashes@[i as int]));
        i = i + 1;
    }
    assert(hashes@.subrange(0, hashes@.len() as int) =~= hashes@);
    while level.len() > 1
        invariant
            level@.len() >= 1,
            merkle_root_of(bytes_of_all(level@)) == merkle_root_of(bytes_of_all(hashes@)),
        decreases level@.len(),
    {
        level = build_next_level(env, &level);
    }
    level[0]
}

/// The sibling path of leaf `index` (at most the number of leaves).
pub fn build_merkle_proof(env: &Env, leaves: &Vec<Bytes32>, index: u32) -> (r: Vec<Bytes32>)
    requires
        leaves@.len() <= 1 || index < leaves@.len(),
    ensures
        bytes_of_all(r@) == proof_path(bytes_of_all(leaves@), index as int),
{
    let mut proof: Vec<Bytes32> = Vec::new();
    if leaves.len() <= 1 {
        assert(bytes_of_all(proof@) =~= Seq::<Seq<u8>>::empty());
        return proof;
    }
    let mut level: Vec<Bytes32> = Vec::new();
    let mut i: usize = 0;
    while i < leaves.len()
        invariant
            0 <= i <= leaves@.len(),
            level@ == leaves@.subrange(0, i as int),
        decreases leaves@.len() - i,
    {
        level.push(leaves[i]);
        assert(leaves@.subrange(0, (i + 1) as int) =~= leaves@.subrange(0, i as int).push(leaves@[i as int]));
        i = i + 1;
    }
    assert(leaves@.subrange(0, leaves@.len() as int) =~= leaves@);
    let mut idx: u32 = index;
    while level.len() > 1
        invariant
            level@.len() >= 1,
            idx < level@.len(),
            bytes_of_all(proof@) + proof_path(bytes_of_all(level@), idx as int) == proof_path(
                bytes_of_all(leaves@),
                index as int,
            ),
        decreases level@.len(),
    {
        let ghost l = bytes_of_all(level@);
        let sib: u32 = if idx % 2 == 0 { idx + 1 } else { idx - 1 };
        let sibling = if (sib as usize) < level.len() { level[sib as usize] } else { level[idx as usize] };
        assert(sibling@ == sibling_of(l, idx as int));
        let ghost before = bytes_of_all(proof@);
        proof.push(sibling);
        assert(bytes_of_all(proof@) =~= before.push(sibling@));
        let next = build_next_level(env, &level);
        assert(proof_path(l, idx as int) == seq![sibling_of(l, idx as int)] + proof_path(next_level(l), idx as int / 2));
        assert(bytes_of_all(proof@) + proof_path(next_level(l), idx as int / 2) =~= before + proof_path(l, idx as int));
        level = next;
        idx = idx / 2;
    }
    assert(proof_path(bytes_of_all(level@), idx as int) == Seq::<Seq<u8>>::empty());
    assert(bytes_of_all(proof@) =~= bytes_of_all(proof@) + Seq::<Seq<u8>>::empty());
    proof
}

/// The last position of a leaf among a list of leaves (0 if absent).
fn last_leaf_position(leaves: &Vec<Bytes32>, h: &Bytes32) -> (r: usize)
    ensures
        r as int == last_position(bytes_of_all(leaves@), h@),
{
    let ghost l = bytes_of_all(leaves@);
    let mut found: usize = 0;
    let mut k: usize = 0;
    while k < leaves.len()
        invariant
            0 <= k <= leaves@.len(),
            l == bytes_of_all(leaves@),
            found as int == last_position(l.subrange(0, k as int), h@),
        decreases leaves@.len() - k,
    {
        assert(l.subrange(0, (k + 1) as int).drop_last() =~= l.subrange(0, k as int));
        if bytes32_eq(&leaves[k], h) {
            found = k;
        }
        k = k + 1;
    }
    assert(l.subrange(0, l.len() as int) =~= l);
    found
}

/// Whether folding `proof` into `leaf`, at the leaf's last position among
/// `all_leaves`, yields the root of `all_leaves`.
pub fn verify_merkle_proof(env: &Env, leaf: &Bytes32, proof: &Vec<Bytes32>, all_leaves: &Vec<Bytes32>) -> (r: bool)
    ensures
        r == (fold_proof(
            leaf@,
            bytes_of_all(proof@),
            last_position(bytes_of_all(all_leaves@), leaf@),
        ) == merkle_root_of(bytes_of_all(all_leaves@))),
{
    let root = merkle_root(env, all_leaves);
    let ghost p = bytes_of_all(proof@);
    let mut idx: usize = last_leaf_position(all_leaves, leaf);
    let ghost idx0 = idx as int;
    let mut computed = *leaf;
    let mut i: usize = 0;
    assert(p.subrange(0, p.len() as int) =~= p);
    while i < proof.len()
        invariant
            0 <= i <= proof@.len(),
            p == bytes_of_all(proof@),
            fold_proof(leaf@, p, idx0) == fold_proof(computed@, p.subrange(i as int, p.len() as int), idx as int),
        decreases proof@.len() - i,
    {
        let ghost rest = p.subrange(i as int, p.len() as int);
        assert(rest[0] == proof@[i as int]@);
        assert(rest.drop_first() =~= p.subrange(i + 1, p.len() as int));
        if idx % 2 == 0 {
            computed = hash_pair(env, &computed, &proof[i]);
        } else {
            computed = hash_pair(env, &proof[i], &computed);
        }
        idx = idx / 2;
        i = i + 1;
    }
    bytes32_eq(&computed, &root)
}

impl IpRegistry {
    /// The commitment hashes of the existing IPs among `ids`.
    pub(crate) fn leaves_for(&self, ids: &Vec<u64>) -> (r: Vec<Bytes32>)
        requires
            self.wf(),
        ensures
            bytes_of_all(r@) == leaves_of(self@, ids@),
    {
        let mut leaves: Vec<Bytes32> = Vec::new();
        let mut i: usize = 0;
        while i < ids.len()
            invariant
                self.wf(),
                0 <= i <= ids@.len(),
                bytes_of_all(leaves@) == leaves_of(self@, ids@.subrange(0, i as int)),
            decreases ids@.len() - i,
        {
            let id = ids[i];
            let ghost before = bytes_of_all(leaves@);
            assert(ids@.subrange(0, (i + 1) as int).drop_last() =~= ids@.subrange(0, i as int));
            if id >= 1 && id <= self.ips.len() as u64 {
                leaves.push(self.ips[(id - 1) as usize].record.commitment_hash);
                assert(bytes_of_all(leaves@) =~= before.push(self@.record(id).commitment_hash@));
            }
            i = i + 1;
        }
        assert(ids@.subrange(0, ids@.len() as int) =~= ids@);
        leaves
    }

    /// The Merkle root over the commitments of `owner`'s IPs (zeros if none).
    pub fn compute_ip_merkle_root(&self, env: &Env, owner: Addr) -> (r: Bytes32)
        requires
            self.wf(),
        ensures
            r@ == merkle_root_of(leaves_of(self@, self@.ids_of(owner))),
    {
        let ids = self.list_ip_by_owner(owner);
        let leaves = self.leaves_for(&ids);
        merkle_root(env, &leaves)
    }

    /// Whether `proof` folds IP `ip_id`'s commitment into the Merkle root of
    /// its owner's commitments.
    pub fn verify_ip_merkle_proof(&self, env: &Env, ip_id: u64, proof: &Vec<Bytes32>) -> (r: Result<bool, ContractError>)
        requires
            self.wf(),
        ensures
            match r {
                Ok(b) => self@.has_ip(ip_id) && {
                    let leaves = leaves_of(self@, self@.ids_of(self@.record(ip_id).owner));
                    let h = self@.record(ip_id).commitment_hash@;
                    b == (fold_proof(h, bytes_of_all(proof@), last_position(leaves, h)) == merkle_root_of(leaves))
                },
                Err(e) => !self@.has_ip(ip_id) && e == ContractError::IpNotFound,
            },
    {
        if ip_id == 0 || ip_id > self.ips.len() as u64 {
            return Err(ContractError::IpNotFound);
        }
        let i = (ip_id - 1) as usize;
        let owner = self.ips[i].record.owner;
        let ids = self.list_ip_by_owner(owner);
        let leaves = self.leaves_for(&ids);
        Ok(verify_merkle_proof(env, &self.ips[i].record.commitment_hash, proof, &leaves))
    }

    /// The sibling path proving IP `ip_id`'s commitment among its owner's
    /// commitments (from the last leaf equal to it).
    pub fn generate_merkle_proof(&self, env: &Env, ip_id: u64) -> (r: Result<Vec<Bytes32>, ContractError>)
        requires
            self.wf(),
            self@.has_ip(ip_id) ==> self@.ids_of(self@.record(ip_id).owner).len() < u32::MAX,
        ensures
            match r {
                Ok(p) => self@.has_ip(ip_id) && {
                    let leaves = leaves_of(self@, self@.ids_of(self@.record(ip_id).owner));
                    bytes_of_all(p@) == proof_path(
                        leaves,
                        last_position(leaves, self@.record(ip_id).commitment_hash@),
                    )
                },
                Err(e) => !self@.has_ip(ip_id) && e == ContractError::IpNotFound,
            },
    {
        if ip_id == 0 || ip_id > self.ips.len() as u64 {
            return Err(ContractError::IpNotFound);
        }
        let i = (ip_id - 1) as usize;
        let h = self.ips[i].record.commitment_hash;
        let owner = self.ips[i].record.owner;
        let ids = self.list_ip_by_owner(owner);
        let leaves = self.leaves_for(&ids);
        let ghost l = bytes_of_all(leaves@);
        proof {
            lemma_leaves_len(self@, ids@);
            lemma_last_position_bound(l, h@);
        }
        let found = last_leaf_position(&leaves, &h) as u32;
        Ok(build_merkle_proof(env, &leaves, found))
    }
}

proof fn lemma_leaves_len(s: RegistryState, ids: Seq<u64>)
    ensures
        leaves_of(s, ids).len() <= ids.len(),
    decreases ids.len(),
{
    if ids.len() > 0 {
        lemma_leaves_len(s, ids.drop_last());
    }
}

} // verus!
