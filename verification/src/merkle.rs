//! Append-only incremental Merkle accumulator over message identifiers.
//!
//! The tree has a fixed depth; absent subtrees are stood in for by the
//! zero-hash ladder, so the root is a function of the ordered leaf sequence
//! alone. A proof is the bottom-up list of sibling subtree hashes; because
//! leaves are only ever appended on the right, a proof generated against an
//! earlier checkpoint reconstructs that checkpoint's root forever.

use vstd::prelude::*;
use vstd::arithmetic::power2::{
    pow2,
    lemma_pow2_pos,
    lemma_pow2_unfold,
    lemma2_to64,
};
use vstd::arithmetic::div_mod::{
    lemma_basic_div,
    lemma_fundamental_div_mod,
    lemma_mod_breakdown,
    lemma_mod_division_less_than_divisor,
    lemma_mod_sub_multiples_vanish,
};
use crate::bytes_be::{clone_bytes, bytes_eq, zero_bytes};
use crate::hash::{hash_node, hash_pair};

verus! {

/// Depth of the accumulator: room for 2^32 leaves.
pub const TREE_DEPTH: u32 = 32;

/// What an accumulator operation can report.
#[derive(Debug, Clone, Copy, PartialEq, Eq, Structural)]
pub enum MerkleError {
    /// The leaf value is already present in the tree.
    DuplicateLeaf,
    /// No leaf was ever inserted at the requested index.
    LeafNotFound,
}

/// The byte sequences held by a sequence of byte vectors.
pub open spec fn views_of(s: Seq<Vec<u8>>) -> Seq<Seq<u8>> {
    Seq::new(s.len(), |i: int| s[i]@)
}

/// The hash standing in for an absent subtree of the given depth: zero bytes
/// at the leaves, each level the node hash of two copies of the level below.
pub open spec fn zero_hash(depth: nat) -> Seq<u8>
    decreases depth,
{
    if depth == 0 {
        Seq::new(32, |i: int| 0u8)
    } else {
        hash_node(zero_hash((depth - 1) as nat), zero_hash((depth - 1) as nat))
    }
}

/// The root of the subtree of the given depth holding the given leaves at its
/// left edge, zero-padded on the right.
pub open spec fn subtree_root(leaves: Seq<Seq<u8>>, depth: nat) -> Seq<u8>
    decreases depth,
{
    if depth == 0 {
        if leaves.len() == 0 {
            zero_hash(0)
        } else {
            leaves[0]
        }
    } else {
        let half = pow2((depth - 1) as nat) as int;
        if leaves.len() <= half {
            hash_node(subtree_root(leaves, (depth - 1) as nat), zero_hash((depth - 1) as nat))
        } else {
            hash_node(
                subtree_root(leaves.take(half), (depth - 1) as nat),
                subtree_root(leaves.skip(half), (depth - 1) as nat),
            )
        }
    }
}

/// The root of the full tree over the given leaf sequence.
pub open spec fn root_of(leaves: Seq<Seq<u8>>) -> Seq<u8> {
    subtree_root(leaves, TREE_DEPTH as nat)
}

/// The inclusion proof for the leaf at the given index: the sibling subtree
/// hashes from the leaf level up to just below the root.
pub open spec fn proof_path(leaves: Seq<Seq<u8>>, i: int, depth: nat) -> Seq<Seq<u8>>
    decreases depth,
{
    if depth == 0 {
        Seq::<Seq<u8>>::empty()
    } else {
        let half = pow2((depth - 1) as nat) as int;
        if i < half {
            if leaves.len() <= half {
                proof_path(leaves, i, (depth - 1) as nat).push(zero_hash((depth - 1) as nat))
            } else {
                proof_path(leaves.take(half), i, (depth - 1) as nat).push(
                    subtree_root(leaves.skip(half), (depth - 1) as nat),
                )
            }
        } else {
            let right = if leaves.len() <= half {
                Seq::<Seq<u8>>::empty()
            } else {
                leaves.skip(half)
            };
            let left = if leaves.len() <= half {
                leaves
            } else {
                leaves.take(half)
            };
            proof_path(right, i - half, (depth - 1) as nat).push(subtree_root(left, (depth - 1) as nat))
        }
    }
}

/// The root reconstructed from a leaf, a sibling path and the leaf's index:
/// at each level the running hash is combined with the next sibling, on the
/// side chosen by the corresponding bit of the index.
pub open spec fn branch_root(leaf: Seq<u8>, path: Seq<Seq<u8>>, i: int) -> Seq<u8>
    decreases path.len(),
{
    if path.len() == 0 {
        leaf
    } else {
        let sub = branch_root(leaf, path.drop_last(), i);
        if (i / pow2((path.len() - 1) as nat) as int) % 2 == 0 {
            hash_node(sub, path.last())
        } else {
            hash_node(path.last(), sub)
        }
    }
}

/// A subtree without leaves is exactly the zero-hash of its depth.
pub proof fn lemma_subtree_empty(depth: nat)
    ensures
        subtree_root(Seq::<Seq<u8>>::empty(), depth) == zero_hash(depth),
    decreases depth,
{
    if depth > 0 {
        lemma_pow2_pos((depth - 1) as nat);
        lemma_subtree_empty((depth - 1) as nat);
    }
}

/// A proof path has one sibling per level.
pub proof fn lemma_proof_path_len(leaves: Seq<Seq<u8>>, i: int, depth: nat)
    ensures
        proof_path(leaves, i, depth).len() == depth,
    decreases depth,
{
    if depth > 0 {
        let half = pow2((depth - 1) as nat) as int;
        if i < half {
            if leaves.len() <= half {
                lemma_proof_path_len(leaves, i, (depth - 1) as nat);
            } else {
                lemma_proof_path_len(leaves.take(half), i, (depth - 1) as nat);
            }
        } else {
            if leaves.len() <= half {
                lemma_proof_path_len(Seq::<Seq<u8>>::empty(), i - half, (depth - 1) as nat);
            } else {
                lemma_proof_path_len(leaves.skip(half), i - half, (depth - 1) as nat);
            }
        }
    }
}

/// Pushing onto a sequence leaves that sequence as the prefix.
pub proof fn lemma_push_parts<A>(s: Seq<A>, e: A)
    ensures
        s.push(e).drop_last() == s,
        s.push(e).last() == e,
        s.push(e).len() == s.len() + 1,
{
    assert(s.push(e).drop_last() =~= s);
}

/// Reconstruction only reads the low bits of the index: two indices that
/// agree modulo 2^(path length) reconstruct the same root.
proof fn lemma_branch_root_congruence(leaf: Seq<u8>, path: Seq<Seq<u8>>, i: int, j: int)
    requires
        0 <= i,
        0 <= j,
        i % (pow2(path.len()) as int) == j % (pow2(path.len()) as int),
    ensures
        branch_root(leaf, path, i) == branch_root(leaf, path, j),
    decreases path.len(),
{
    if path.len() > 0 {
        let k = (path.len() - 1) as nat;
        let y = pow2(k) as int;
        lemma_pow2_pos(k);
        lemma_pow2_unfold(path.len() as nat);
        assert(pow2(path.len()) as int == y * 2);
        lemma_mod_breakdown(i, y, 2);
        lemma_mod_breakdown(j, y, 2);
        let ai = (i / y) % 2;
        let aj = (j / y) % 2;
        let bi = i % y;
        let bj = j % y;
        lemma_mod_division_less_than_divisor(i / y, 2);
        lemma_mod_division_less_than_divisor(j / y, 2);
        lemma_mod_division_less_than_divisor(i, y);
        lemma_mod_division_less_than_divisor(j, y);
        assert(y * ai + bi == y * aj + bj);
        assert(ai == aj && bi == bj) by {
            if ai == 0 && aj == 1 {
                assert(y * ai == 0 && y * aj == y) by (nonlinear_arith)
                    requires ai == 0 && aj == 1;
            }
            if ai == 1 && aj == 0 {
                assert(y * ai == y && y * aj == 0) by (nonlinear_arith)
                    requires ai == 1 && aj == 0;
            }
            if ai == aj {
                assert(y * ai == y * aj);
            }
        }
        lemma_branch_root_congruence(leaf, path.drop_last(), i, j);
    }
}

/// The path generated for a leaf reconstructs exactly the root of the tree it
/// was generated from.
pub proof fn lemma_branch_root_correct(leaves: Seq<Seq<u8>>, i: int, depth: nat)
    requires
        0 <= i < leaves.len(),
        leaves.len() <= pow2(depth),
    ensures
        branch_root(leaves[i], proof_path(leaves, i, depth), i) == subtree_root(leaves, depth),
    decreases depth,
{
    if depth == 0 {
        assert(pow2(0) == 1) by {
            lemma2_to64();
        }
    } else {
        let d1 = (depth - 1) as nat;
        let half = pow2(d1) as int;
        lemma_pow2_pos(d1);
        lemma_pow2_unfold(depth);
        let path = proof_path(leaves, i, depth);
        if i < half {
            lemma_basic_div(i, half);
            if leaves.len() <= half {
                let inner = proof_path(leaves, i, d1);
                lemma_proof_path_len(leaves, i, d1);
                lemma_push_parts(inner, zero_hash(d1));
                lemma_branch_root_correct(leaves, i, d1);
            } else {
                let left = leaves.take(half);
                let right = leaves.skip(half);
                let inner = proof_path(left, i, d1);
                lemma_proof_path_len(left, i, d1);
                lemma_push_parts(inner, subtree_root(right, d1));
                assert(left[i] == leaves[i]);
                lemma_branch_root_correct(left, i, d1);
            }
        } else {
            let left = leaves.take(half);
            let right = leaves.skip(half);
            let sib = subtree_root(left, d1);
            let inner = proof_path(right, i - half, d1);
            lemma_proof_path_len(right, i - half, d1);
            lemma_push_parts(inner, sib);
            assert(right[i - half] == leaves[i]);
            lemma_branch_root_correct(right, i - half, d1);
            lemma_mod_sub_multiples_vanish(i, half);
            assert((i - half) % half == i % half);
            lemma_branch_root_congruence(leaves[i], inner, i - half, i);
            assert(i / half == 1) by {
                lemma_fundamental_div_mod(i, half);
                lemma_mod_division_less_than_divisor(i, half);
                let q = i / half;
                let r = i % half;
                assert(q == 1) by (nonlinear_arith)
                    requires
                        i == half * q + r,
                        0 <= r < half,
                        half <= i,
                        i < 2 * half,
                ;
            }
        }
    }
}

/// Append-only stability of inclusion proofs: the proof for leaf `i`,
/// generated when the tree held exactly `k` leaves, reconstructs the root
/// recorded at `k` — however many leaves are appended afterwards, that
/// historical proof and root continue to match.
pub proof fn lemma_proof_stability(leaves: Seq<Seq<u8>>, i: int, k: int)
    requires
        0 <= i < k <= leaves.len(),
        leaves.len() <= pow2(TREE_DEPTH as nat),
    ensures
        branch_root(
            leaves[i],
            proof_path(leaves.take(k), i, TREE_DEPTH as nat),
            i,
        ) == subtree_root(leaves.take(k), TREE_DEPTH as nat),
{
    let snap = leaves.take(k);
    assert(snap[i] == leaves[i]);
    lemma_branch_root_correct(snap, i, TREE_DEPTH as nat);
}

/// A snapshot of the accumulator: the Merkle root over all leaves inserted so
/// far, and how many there were.
pub struct Checkpoint {
    /// Root of the message tree, 32 bytes.
    pub root: Vec<u8>,
    /// Number of leaves the root covers.
    pub leaf_count: u32,
}

/// An inclusion proof: the index of the leaf and its sibling path, bottom up.
pub struct MerkleProof {
    /// Append position of the proven leaf.
    pub leaf_index: u32,
    /// Sibling subtree hashes, leaf level first.
    pub path: Vec<Vec<u8>>,
}

/// The append-only incremental Merkle accumulator.
pub struct MerkleAccumulator {
    leaves: Vec<Vec<u8>>,
    zeros: Vec<Vec<u8>>,
}

impl View for MerkleAccumulator {
    type V = Seq<Seq<u8>>;

    closed spec fn view(&self) -> Seq<Seq<u8>> {
        views_of(self.leaves@)
    }
}

impl MerkleAccumulator {
    /// The zero-hash ladder is complete and the leaf count fits a 32-bit
    /// checkpoint.
    pub closed spec fn wf(self) -> bool {
        &&& self.zeros@.len() == TREE_DEPTH + 1
        &&& forall|d: int|
            0 <= d <= TREE_DEPTH ==> (#[trigger] self.zeros@[d])@ == zero_hash(d as nat)
        &&& self.leaves@.len() <= u32::MAX
    }

    /// An empty accumulator.
    pub fn new() -> (r: Self)
        ensures
            r.wf(),
            r@ == Seq::<Seq<u8>>::empty(),
    {
        let mut zeros: Vec<Vec<u8>> = Vec::new();
        let z0 = zero_bytes(32);
        proof {
            assert(z0@ =~= zero_hash(0));
        }
        zeros.push(z0);
        let mut d: usize = 1;
        while d <= 32
            invariant
                1 <= d <= 33,
                zeros@.len() == d,
                forall|e: int| 0 <= e < d ==> (#[trigger] zeros@[e])@ == zero_hash(e as nat),
            decreases 33 - d,
        {
            let h = hash_pair(&zeros[d - 1], &zeros[d - 1]);
            zeros.push(h);
            d = d + 1;
        }
        let r = MerkleAccumulator { leaves: Vec::new(), zeros };
        proof {
            assert(r@ =~= Seq::<Seq<u8>>::empty());
        }
        r
    }

    /// How many leaves have been inserted.
    pub fn leaf_count(&self) -> (r: u32)
        requires
            self.wf(),
        ensures
            r == self@.len(),
    {
        self.leaves.len() as u32
    }

    /// Appends a leaf and returns its index; a leaf value already present is
    /// refused, leaving the tree unchanged.
    pub fn insert(&mut self, leaf: Vec<u8>) -> (r: Result<u32, MerkleError>)
        requires
            old(self).wf(),
            leaf@.len() == 32,
            old(self)@.len() < u32::MAX,
        ensures
            final(self).wf(),
            match r {
                Ok(idx) => !old(self)@.contains(leaf@) && idx == old(self)@.len() && final(self)@
                    == old(self)@.push(leaf@),
                Err(e) => e == MerkleError::DuplicateLeaf && old(self)@.contains(leaf@)
                    && final(self)@ == old(self)@,
            },
    {
        let mut j: usize = 0;
        while j < self.leaves.len()
            invariant
                j <= self.leaves@.len(),
                forall|m: int| 0 <= m < j ==> self@[m] != leaf@,
                *self == *old(self),
                self.wf(),
            decreases self.leaves@.len() - j,
        {
            if bytes_eq(&self.leaves[j], &leaf) {
                proof {
                    assert(self@[j as int] == leaf@);
                }
                return Err(MerkleError::DuplicateLeaf);
            }
            j = j + 1;
        }
        proof {
            assert(!old(self)@.contains(leaf@));
        }
        let idx = self.leaves.len() as u32;
        self.leaves.push(leaf);
        proof {
            assert(self@ =~= old(self)@.push(leaf@));
        }
        Ok(idx)
    }

    /// The root of the subtree of the given depth over the leaves between the
    /// two positions.
    fn compute_subtree(&self, start: usize, end: usize, depth: u32) -> (r: Vec<u8>)
        requires
            self.wf(),
            depth <= TREE_DEPTH,
            start <= end,
            end <= self@.len(),
            end - start <= pow2(depth as nat),
        ensures
            r@ == subtree_root(self@.subrange(start as int, end as int), depth as nat),
        decreases depth,
    {
        let ghost sub = self@.subrange(start as int, end as int);
        if start == end {
            proof {
                assert(sub =~= Seq::<Seq<u8>>::empty());
                lemma_subtree_empty(depth as nat);
            }
            return clone_bytes(&self.zeros[depth as usize]);
        }
        if depth == 0 {
            proof {
                assert(sub[0] == self@[start as int]);
            }
            return clone_bytes(&self.leaves[start]);
        }
        let half = pow2_u64(depth - 1);
        proof {
            lemma_pow2_pos((depth - 1) as nat);
            lemma_pow2_unfold(depth as nat);
        }
        if ((end - start) as u64) <= half {
            let l = self.compute_subtree(start, end, depth - 1);
            let z = clone_bytes(&self.zeros[(depth - 1) as usize]);
            hash_pair(&l, &z)
        } else {
            let mid = start + (half as usize);
            proof {
                assert(self@.subrange(start as int, mid as int) =~= sub.take(half as int));
                assert(self@.subrange(mid as int, end as int) =~= sub.skip(half as int));
            }
            let l = self.compute_subtree(start, mid, depth - 1);
            let r = self.compute_subtree(mid, end, depth - 1);
            hash_pair(&l, &r)
        }
    }

    /// The sibling path for the leaf at the given relative index within the
    /// leaves between the two positions.
    fn compute_path(&self, start: usize, end: usize, idx: u64, depth: u32) -> (r: Vec<Vec<u8>>)
        requires
            self.wf(),
            depth <= TREE_DEPTH,
            start <= end,
            end <= self@.len(),
            end - start <= pow2(depth as nat),
            idx < end - start,
        ensures
            views_of(r@) == proof_path(
                self@.subrange(start as int, end as int),
                idx as int,
                depth as nat,
            ),
        decreases depth,
    {
        let ghost sub = self@.subrange(start as int, end as int);
        if depth == 0 {
            let r: Vec<Vec<u8>> = Vec::new();
            proof {
                assert(views_of(r@) =~= Seq::<Seq<u8>>::empty());
            }
            return r;
        }
        let half = pow2_u64(depth - 1);
        proof {
            lemma_pow2_pos((depth - 1) as nat);
            lemma_pow2_unfold(depth as nat);
        }
        let fits_left = ((end - start) as u64) <= half;
        if idx < half {
            let mut rest;
            let sib;
            if fits_left {
                rest = self.compute_path(start, end, idx, depth - 1);
                sib = clone_bytes(&self.zeros[(depth - 1) as usize]);
            } else {
                let mid = start + (half as usize);
                proof {
                    assert(self@.subrange(start as int, mid as int) =~= sub.take(half as int));
                    assert(self@.subrange(mid as int, end as int) =~= sub.skip(half as int));
                }
                rest = self.compute_path(start, mid, idx, depth - 1);
                sib = self.compute_subtree(mid, end, depth - 1);
            }
            let ghost rest_views = views_of(rest@);
            rest.push(sib);
            proof {
                assert(views_of(rest@) =~= rest_views.push(sib@));
            }
            rest
        } else {
            let mid = start + (half as usize);
            proof {
                assert(!fits_left);
                assert(self@.subrange(start as int, mid as int) =~= sub.take(half as int));
                assert(self@.subrange(mid as int, end as int) =~= sub.skip(half as int));
            }
            let mut rest = self.compute_path(mid, end, idx - half, depth - 1);
            let sib = self.compute_subtree(start, mid, depth - 1);
            let ghost rest_views = views_of(rest@);
            rest.push(sib);
            proof {
                assert(views_of(rest@) =~= rest_views.push(sib@));
            }
            rest
        }
    }

    /// A checkpoint of the current state: root and leaf count. With no
    /// intervening insert, two checkpoints are identical, since both are the
    /// same function of the leaf sequence.
    pub fn checkpoint(&self) -> (r: Checkpoint)
        requires
            self.wf(),
        ensures
            r.root@ == root_of(self@),
            r.leaf_count == self@.len(),
    {
        proof {
            lemma2_to64();
            assert(self@.subrange(0, self@.len() as int) =~= self@);
        }
        let root = self.compute_subtree(0, self.leaves.len(), TREE_DEPTH);
        Checkpoint { root, leaf_count: self.leaves.len() as u32 }
    }

    /// The inclusion proof for the leaf at the given index against the
    /// current tree state; an index never inserted is refused.
    pub fn prove(&self, index: u32) -> (r: Result<MerkleProof, MerkleError>)
        requires
            self.wf(),
        ensures
            match r {
                Ok(p) => index < self@.len() && p.leaf_index == index && p.path@.len()
                    == TREE_DEPTH && views_of(p.path@) == proof_path(
                    self@,
                    index as int,
                    TREE_DEPTH as nat,
                ),
                Err(e) => e == MerkleError::LeafNotFound && index >= self@.len(),
            },
    {
        if (index as usize) >= self.leaves.len() {
            return Err(MerkleError::LeafNotFound);
        }
        proof {
            lemma2_to64();
            assert(self@.subrange(0, self@.len() as int) =~= self@);
        }
        let path = self.compute_path(0, self.leaves.len(), index as u64, TREE_DEPTH);
        proof {
            lemma_proof_path_len(self@, index as int, TREE_DEPTH as nat);
            assert(views_of(path@).len() == path@.len());
        }
        Ok(MerkleProof { leaf_index: index, path })
    }
}

/// 2 to the given power, as a 64-bit integer.
fn pow2_u64(e: u32) -> (r: u64)
    requires
        e <= 32,
    ensures
        r == pow2(e as nat),
{
    proof {
        lemma2_to64();
    }
    let mut r: u64 = 1;
    let mut i: u32 = 0;
    while i < e
        invariant
            i <= e <= 32,
            r == pow2(i as nat),
        decreases e - i,
    {
        proof {
            lemma_pow2_unfold((i + 1) as nat);
            vstd::arithmetic::power2::lemma_pow2_strictly_increases(i as nat, 33);
            vstd::arithmetic::power2::lemma2_to64_rest();
        }
        r = r * 2;
        i = i + 1;
    }
    r
}

/// Recomputes the root a proof leads to and compares it with the given root:
/// true exactly when the reconstruction over the proof's path and index
/// matches.
pub fn verify_proof(leaf: &Vec<u8>, proof: &MerkleProof, root: &Vec<u8>) -> (r: bool)
    requires
        proof.path@.len() <= TREE_DEPTH,
    ensures
        r == (branch_root(leaf@, views_of(proof.path@), proof.leaf_index as int) == root@),
{
    let ghost path_views = views_of(proof.path@);
    let mut current = clone_bytes(leaf);
    let mut j: usize = 0;
    while j < proof.path.len()
        invariant
            j <= proof.path@.len() <= TREE_DEPTH,
            path_views == views_of(proof.path@),
            current@ == branch_root(leaf@, path_views.take(j as int), proof.leaf_index as int),
        decreases proof.path@.len() - j,
    {
        let p = pow2_u64(j as u32);
        proof {
            lemma_pow2_pos(j as nat);
        }
        let bit = ((proof.leaf_index as u64) / p) % 2;
        proof {
            let prefix = path_views.take(j as int + 1);
            lemma_push_parts(path_views.take(j as int), path_views[j as int]);
            assert(prefix =~= path_views.take(j as int).push(path_views[j as int]));
        }
        if bit == 0 {
            current = hash_pair(&current, &proof.path[j]);
        } else {
            current = hash_pair(&proof.path[j], &current);
        }
        j = j + 1;
    }
    proof {
        assert(path_views.take(path_views.len() as int) =~= path_views);
    }
    bytes_eq(&current, root)
}

} // verus!
