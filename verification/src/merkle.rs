//! Merkle proof verification: key-path proofs over the sparse state tree and
//! position proofs over the append-only transaction accumulator.

use crate::hash::{append_bytes, hash_eq, hash_tagged, is_collision, sha3_256, tagged_hash};
use vstd::prelude::*;

verus! {

/// Longest sibling list a sparse Merkle proof may carry: one per key bit.
pub const MAX_SPARSE_PROOF_DEPTH: usize = 256;

/// Longest sibling list an accumulator proof may carry.
pub const MAX_ACCUMULATOR_PROOF_DEPTH: usize = 63;

/// The only way a Merkle proof fails: it does not lead to the expected root.
#[derive(Clone, Copy, Debug, PartialEq, Eq)]
pub enum MerkleError {
    RootMismatch,
}

/// Domain label of an internal node of the sparse state tree.
pub open spec fn sparse_internal_label() -> Seq<u8> {
    seq![
        65u8, 80u8, 84u8, 79u8, 83u8, 58u8, 58u8, 83u8, 112u8, 97u8, 114u8, 115u8, 101u8, 77u8,
        101u8, 114u8, 107u8, 108u8, 101u8, 73u8, 110u8, 116u8, 101u8, 114u8, 110u8, 97u8, 108u8,
    ]
}

/// Domain label of a leaf of the sparse state tree.
pub open spec fn sparse_leaf_label() -> Seq<u8> {
    seq![
        65u8, 80u8, 84u8, 79u8, 83u8, 58u8, 58u8, 83u8, 112u8, 97u8, 114u8, 115u8, 101u8, 77u8,
        101u8, 114u8, 107u8, 108u8, 101u8, 76u8, 101u8, 97u8, 102u8, 78u8, 111u8, 100u8, 101u8,
    ]
}

/// Domain label of an internal node of the transaction accumulator.
pub open spec fn accumulator_label() -> Seq<u8> {
    seq![
        65u8, 80u8, 84u8, 79u8, 83u8, 58u8, 58u8, 84u8, 114u8, 97u8, 110u8, 115u8, 97u8, 99u8,
        116u8, 105u8, 111u8, 110u8, 65u8, 99u8, 99u8, 117u8, 109u8, 117u8, 108u8, 97u8, 116u8,
        111u8, 114u8,
    ]
}

fn sparse_internal_label_bytes() -> (out: Vec<u8>)
    ensures
        out@ == sparse_internal_label(),
{
    let out: Vec<u8> = vec![
        65u8, 80u8, 84u8, 79u8, 83u8, 58u8, 58u8, 83u8, 112u8, 97u8, 114u8, 115u8, 101u8, 77u8,
        101u8, 114u8, 107u8, 108u8, 101u8, 73u8, 110u8, 116u8, 101u8, 114u8, 110u8, 97u8, 108u8,
    ];
    assert(out@ =~= sparse_internal_label());
    out
}

fn sparse_leaf_label_bytes() -> (out: Vec<u8>)
    ensures
        out@ == sparse_leaf_label(),
{
    let out: Vec<u8> = vec![
        65u8, 80u8, 84u8, 79u8, 83u8, 58u8, 58u8, 83u8, 112u8, 97u8, 114u8, 115u8, 101u8, 77u8,
        101u8, 114u8, 107u8, 108u8, 101u8, 76u8, 101u8, 97u8, 102u8, 78u8, 111u8, 100u8, 101u8,
    ];
    assert(out@ =~= sparse_leaf_label());
    out
}

fn accumulator_label_bytes() -> (out: Vec<u8>)
    ensures
        out@ == accumulator_label(),
{
    let out: Vec<u8> = vec![
        65u8, 80u8, 84u8, 79u8, 83u8, 58u8, 58u8, 84u8, 114u8, 97u8, 110u8, 115u8, 97u8, 99u8,
        116u8, 105u8, 111u8, 110u8, 65u8, 99u8, 99u8, 117u8, 109u8, 117u8, 108u8, 97u8, 116u8,
        111u8, 114u8,
    ];
    assert(out@ =~= accumulator_label());
    out
}

/// The hash of a two-child node in the tree whose nodes carry `label`.
pub open spec fn node_hash(label: Seq<u8>, left: Seq<u8>, right: Seq<u8>) -> Seq<u8> {
    tagged_hash(label, left + right)
}

/// Hashes a two-child node.
pub fn hash_node(label: &[u8], left: &[u8; 32], right: &[u8; 32]) -> (out: [u8; 32])
    ensures
        out@ == node_hash(label@, left@, right@),
{
    let mut buf: Vec<u8> = Vec::new();
    append_bytes(&mut buf, left.as_slice());
    append_bytes(&mut buf, right.as_slice());
    assert(buf@ =~= left@ + right@);
    hash_tagged(label, buf.as_slice())
}

/// Bit `i` of a key, counting from the most significant bit of its first byte.
pub open spec fn key_bit(key: Seq<u8>, i: int) -> bool {
    (key[i / 8] >> ((7 - i % 8) as u8)) & 1u8 == 1u8
}

/// Reads bit `i` of a 32-byte key.
pub fn bit_at(key: &[u8; 32], i: usize) -> (bit: bool)
    requires
        i < 256,
    ensures
        bit == key_bit(key@, i as int),
{
    let byte: u8 = key[i / 8];
    let shift: u8 = (7 - i % 8) as u8;
    (byte >> shift) & 1u8 == 1u8
}

/// The leaf node that binds `key` to `value_hash` in the sparse state tree.
pub open spec fn sparse_leaf_hash(key: Seq<u8>, value_hash: Seq<u8>) -> Seq<u8> {
    tagged_hash(sparse_leaf_label(), key + value_hash)
}

/// The hash reached from `current` by climbing through `siblings`, lowest
/// first. With `n` siblings left the node sits at depth `n`, and bit `n - 1`
/// of the key says whether it is the right child.
pub open spec fn sparse_climb(key: Seq<u8>, current: Seq<u8>, siblings: Seq<[u8; 32]>) -> Seq<u8>
    decreases siblings.len(),
{
    if siblings.len() == 0 {
        current
    } else {
        let sibling = siblings[0]@;
        let parent = if key_bit(key, siblings.len() - 1) {
            node_hash(sparse_internal_label(), sibling, current)
        } else {
            node_hash(sparse_internal_label(), current, sibling)
        };
        sparse_climb(key, parent, siblings.drop_first())
    }
}

/// The root that a sparse Merkle proof reconstructs for `(key, value_hash)`.
pub open spec fn sparse_root(key: Seq<u8>, value_hash: Seq<u8>, siblings: Seq<[u8; 32]>) -> Seq<
    u8,
> {
    sparse_climb(key, sparse_leaf_hash(key, value_hash), siblings)
}

/// A key-path proof: the siblings met on the way from a leaf to the root.
#[derive(Debug)]
pub struct SparseMerkleProof {
    pub siblings: Vec<[u8; 32]>,
}

impl SparseMerkleProof {
    pub fn new(siblings: Vec<[u8; 32]>) -> (proof: SparseMerkleProof)
        ensures
            proof.siblings@ == siblings@,
    {
        SparseMerkleProof { siblings }
    }

    /// Whether the proof binds `(key, value_hash)` to `expected_root`.
    pub open spec fn accepts(
        &self,
        expected_root: Seq<u8>,
        key: Seq<u8>,
        value_hash: Seq<u8>,
    ) -> bool {
        &&& self.siblings@.len() <= MAX_SPARSE_PROOF_DEPTH
        &&& sparse_root(key, value_hash, self.siblings@) == expected_root
    }

    /// Rebuilds the root from the leaf `(key, leaf_value_hash)` and the
    /// siblings, and returns it when it is the expected one.
    pub fn verify_by_hash(
        &self,
        expected_root: &[u8; 32],
        key: &[u8; 32],
        leaf_value_hash: &[u8; 32],
    ) -> (result: Result<[u8; 32], MerkleError>)
        ensures
            result is Ok <==> self.accepts(expected_root@, key@, leaf_value_hash@),
            result matches Ok(root) ==> root@ == expected_root@ && root@ == sparse_root(
                key@,
                leaf_value_hash@,
                self.siblings@,
            ),
            result matches Err(e) ==> e == MerkleError::RootMismatch,
    {
        let n = self.siblings.len();
        if n > MAX_SPARSE_PROOF_DEPTH {
            return Err(MerkleError::RootMismatch);
        }
        let leaf_label = sparse_leaf_label_bytes();
        let node_label = sparse_internal_label_bytes();
        let mut current = hash_node(leaf_label.as_slice(), key, leaf_value_hash);
        let mut i: usize = 0;
        assert(self.siblings@.subrange(0, n as int) =~= self.siblings@);
        while i < n
            invariant
                i <= n,
                n == self.siblings@.len(),
                n <= 256,
                node_label@ == sparse_internal_label(),
                sparse_climb(key@, current@, self.siblings@.subrange(i as int, n as int))
                    == sparse_root(key@, leaf_value_hash@, self.siblings@),
            decreases n - i,
        {
            let ghost rest = self.siblings@.subrange(i as int, n as int);
            assert(rest.drop_first() =~= self.siblings@.subrange(i + 1, n as int));
            assert(rest[0] == self.siblings@[i as int]);
            let sibling = &self.siblings[i];
            if bit_at(key, n - i - 1) {
                current = hash_node(node_label.as_slice(), sibling, &current);
            } else {
                current = hash_node(node_label.as_slice(), &current, sibling);
            }
            i += 1;
        }
        assert(self.siblings@.subrange(n as int, n as int).len() == 0);
        if hash_eq(&current, expected_root) {
            Ok(current)
        } else {
            Err(MerkleError::RootMismatch)
        }
    }
}

/// The root reached from `current`, the node at position `index` of its
/// level, by climbing through `siblings`, lowest first. The position must be
/// used up when the siblings are: an index too large for the tree has no root.
pub open spec fn accumulator_climb(current: Seq<u8>, index: nat, siblings: Seq<[u8; 32]>) -> Option<
    Seq<u8>,
>
    decreases siblings.len(),
{
    if siblings.len() == 0 {
        if index == 0 {
            Some(current)
        } else {
            None
        }
    } else {
        let sibling = siblings[0]@;
        let parent = if index % 2 == 0 {
            node_hash(accumulator_label(), current, sibling)
        } else {
            node_hash(accumulator_label(), sibling, current)
        };
        accumulator_climb(parent, index / 2, siblings.drop_first())
    }
}

/// A position proof in the transaction accumulator.
#[derive(Debug)]
pub struct TransactionAccumulatorProof {
    pub siblings: Vec<[u8; 32]>,
}

impl TransactionAccumulatorProof {
    pub fn new(siblings: Vec<[u8; 32]>) -> (proof: TransactionAccumulatorProof)
        ensures
            proof.siblings@ == siblings@,
    {
        TransactionAccumulatorProof { siblings }
    }

    /// Whether the proof places `element_hash` at `element_index` under
    /// `expected_root`.
    pub open spec fn accepts(
        &self,
        expected_root: Seq<u8>,
        element_hash: Seq<u8>,
        element_index: u64,
    ) -> bool {
        &&& self.siblings@.len() <= MAX_ACCUMULATOR_PROOF_DEPTH
        &&& accumulator_climb(element_hash, element_index as nat, self.siblings@) == Some(
            expected_root,
        )
    }

    /// Checks that the element with hash `element_hash` stands at
    /// `element_index` in the accumulator with root `expected_root`.
    pub fn verify(
        &self,
        expected_root: &[u8; 32],
        element_hash: &[u8; 32],
        element_index: u64,
    ) -> (result: Result<(), MerkleError>)
        ensures
            result is Ok <==> self.accepts(expected_root@, element_hash@, element_index),
            result matches Err(e) ==> e == MerkleError::RootMismatch,
    {
        let n = self.siblings.len();
        if n > MAX_ACCUMULATOR_PROOF_DEPTH {
            return Err(MerkleError::RootMismatch);
        }
        let label = accumulator_label_bytes();
        let mut current = *element_hash;
        let mut index: u64 = element_index;
        let mut i: usize = 0;
        assert(self.siblings@.subrange(0, n as int) =~= self.siblings@);
        while i < n
            invariant
                i <= n,
                n == self.siblings@.len(),
                label@ == accumulator_label(),
                accumulator_climb(
                    current@,
                    index as nat,
                    self.siblings@.subrange(i as int, n as int),
                ) == accumulator_climb(element_hash@, element_index as nat, self.siblings@),
            decreases n - i,
        {
            let ghost rest = self.siblings@.subrange(i as int, n as int);
            assert(rest.drop_first() =~= self.siblings@.subrange(i + 1, n as int));
            assert(rest[0] == self.siblings@[i as int]);
            let sibling = &self.siblings[i];
            if index % 2 == 0 {
                current = hash_node(label.as_slice(), &current, sibling);
            } else {
                current = hash_node(label.as_slice(), sibling, &current);
            }
            index = index / 2;
            i += 1;
        }
        assert(self.siblings@.subrange(n as int, n as int).len() == 0);
        if index == 0 && hash_eq(&current, expected_root) {
            Ok(())
        } else {
            Err(MerkleError::RootMismatch)
        }
    }
}

/// Two nodes with one hash have the same children, unless the digest
/// collides. The left children must be of one length.
pub proof fn lemma_node_hash_binds_children(
    label: Seq<u8>,
    left1: Seq<u8>,
    right1: Seq<u8>,
    left2: Seq<u8>,
    right2: Seq<u8>,
)
    requires
        node_hash(label, left1, right1) == node_hash(label, left2, right2),
        left1.len() == left2.len(),
    ensures
        (left1 == left2 && right1 == right2) || exists|a: Seq<u8>, b: Seq<u8>| is_collision(a, b),
{
    let seed = sha3_256(label)@;
    let x1 = seed + (left1 + right1);
    let x2 = seed + (left2 + right2);
    assert(sha3_256(x1)@ == sha3_256(x2)@);
    assert(sha3_256(x1) =~= sha3_256(x2));
    if x1 != x2 {
        assert(is_collision(x1, x2));
    } else {
        let n = seed.len() as int;
        let m = left1.len() as int;
        assert(left1 + right1 =~= x1.subrange(n, x1.len() as int));
        assert(left2 + right2 =~= x2.subrange(n, x2.len() as int));
        assert(left1 =~= (left1 + right1).subrange(0, m));
        assert(left2 =~= (left2 + right2).subrange(0, m));
        assert(right1 =~= (left1 + right1).subrange(m, (left1 + right1).len() as int));
        assert(right2 =~= (left2 + right2).subrange(m, (left2 + right2).len() as int));
    }
}

/// Two climbs along one key that end in one hash started from one hash and
/// met the same siblings, unless the digest collides.
pub proof fn lemma_sparse_climb_binds(
    key: Seq<u8>,
    current1: Seq<u8>,
    siblings1: Seq<[u8; 32]>,
    current2: Seq<u8>,
    siblings2: Seq<[u8; 32]>,
)
    requires
        siblings1.len() == siblings2.len(),
        current1.len() == current2.len(),
        sparse_climb(key, current1, siblings1) == sparse_climb(key, current2, siblings2),
    ensures
        (current1 == current2 && forall|k: int|
            0 <= k < siblings1.len() ==> siblings1[k]@ == siblings2[k]@) || exists|
            a: Seq<u8>,
            b: Seq<u8>,
        | is_collision(a, b),
    decreases siblings1.len(),
{
    if siblings1.len() > 0 {
        let s1 = siblings1[0]@;
        let s2 = siblings2[0]@;
        let right = key_bit(key, siblings1.len() - 1);
        let label = sparse_internal_label();
        let parent1 = if right {
            node_hash(label, s1, current1)
        } else {
            node_hash(label, current1, s1)
        };
        let parent2 = if right {
            node_hash(label, s2, current2)
        } else {
            node_hash(label, current2, s2)
        };
        let rest1 = siblings1.drop_first();
        let rest2 = siblings2.drop_first();
        lemma_sparse_climb_binds(key, parent1, rest1, parent2, rest2);
        if parent1 == parent2 {
            if right {
                lemma_node_hash_binds_children(label, s1, current1, s2, current2);
            } else {
                lemma_node_hash_binds_children(label, current1, s1, current2, s2);
            }
        }
        if !exists|a: Seq<u8>, b: Seq<u8>| is_collision(a, b) {
            assert forall|k: int| 0 <= k < siblings1.len() implies siblings1[k]@
                == siblings2[k]@ by {
                if k > 0 {
                    assert(rest1[k - 1] == siblings1[k]);
                    assert(rest2[k - 1] == siblings2[k]);
                }
            }
        }
    }
}

/// A proof that differs from a valid one in some sibling, be it in a single
/// bit, does not lead to the same root, unless the digest collides.
pub proof fn lemma_changed_sibling_changes_root(
    key: Seq<u8>,
    value_hash: Seq<u8>,
    siblings: Seq<[u8; 32]>,
    changed: Seq<[u8; 32]>,
    k: int,
)
    requires
        siblings.len() == changed.len(),
        0 <= k < siblings.len(),
        siblings[k]@ != changed[k]@,
    ensures
        sparse_root(key, value_hash, changed) != sparse_root(key, value_hash, siblings) || exists|
            a: Seq<u8>,
            b: Seq<u8>,
        | is_collision(a, b),
{
    if sparse_root(key, value_hash, changed) == sparse_root(key, value_hash, siblings) {
        let leaf = sparse_leaf_hash(key, value_hash);
        lemma_sparse_climb_binds(key, leaf, siblings, leaf, changed);
    }
}

/// No node on the way up from `current` at `index` has its own hash for a
/// sibling. Where one has, its two children cannot be told apart.
pub open spec fn no_twin_sibling(current: Seq<u8>, index: nat, siblings: Seq<[u8; 32]>) -> bool
    decreases siblings.len(),
{
    if siblings.len() == 0 {
        true
    } else {
        let sibling = siblings[0]@;
        let parent = if index % 2 == 0 {
            node_hash(accumulator_label(), current, sibling)
        } else {
            node_hash(accumulator_label(), sibling, current)
        };
        current != sibling && no_twin_sibling(parent, index / 2, siblings.drop_first())
    }
}

/// Two climbs through the same siblings that end in one root started from
/// one hash at one position, unless the digest collides or a node on the
/// way has its own hash for a sibling.
pub proof fn lemma_accumulator_climb_binds(
    current1: Seq<u8>,
    index1: nat,
    current2: Seq<u8>,
    index2: nat,
    siblings: Seq<[u8; 32]>,
)
    requires
        current1.len() == 32,
        current2.len() == 32,
        accumulator_climb(current1, index1, siblings) is Some,
        accumulator_climb(current1, index1, siblings) == accumulator_climb(
            current2,
            index2,
            siblings,
        ),
        no_twin_sibling(current1, index1, siblings),
    ensures
        (current1 == current2 && index1 == index2) || exists|a: Seq<u8>, b: Seq<u8>|
            is_collision(a, b),
    decreases siblings.len(),
{
    if siblings.len() > 0 {
        let sibling = siblings[0]@;
        let label = accumulator_label();
        let parent1 = if index1 % 2 == 0 {
            node_hash(label, current1, sibling)
        } else {
            node_hash(label, sibling, current1)
        };
        let parent2 = if index2 % 2 == 0 {
            node_hash(label, current2, sibling)
        } else {
            node_hash(label, sibling, current2)
        };
        lemma_accumulator_climb_binds(
            parent1,
            index1 / 2,
            parent2,
            index2 / 2,
            siblings.drop_first(),
        );
        if parent1 == parent2 && index1 / 2 == index2 / 2 {
            if index1 % 2 == 0 && index2 % 2 == 0 {
                lemma_node_hash_binds_children(label, current1, sibling, current2, sibling);
            } else if index1 % 2 == 0 {
                lemma_node_hash_binds_children(label, current1, sibling, sibling, current2);
            } else if index2 % 2 == 0 {
                lemma_node_hash_binds_children(label, sibling, current1, current2, sibling);
            } else {
                lemma_node_hash_binds_children(label, sibling, current1, sibling, current2);
            }
        }
    }
}

/// A valid accumulator proof binds the index: checked against any other
/// index it does not lead to the same root, unless the digest collides. The
/// one exception are trees in which a node on the way has two equal
/// children.
pub proof fn lemma_accumulator_binds_index(
    element_hash: Seq<u8>,
    index: u64,
    other: u64,
    siblings: Seq<[u8; 32]>,
)
    requires
        element_hash.len() == 32,
        index != other,
        accumulator_climb(element_hash, index as nat, siblings) is Some,
        no_twin_sibling(element_hash, index as nat, siblings),
    ensures
        accumulator_climb(element_hash, other as nat, siblings) != accumulator_climb(
            element_hash,
            index as nat,
            siblings,
        ) || exists|a: Seq<u8>, b: Seq<u8>| is_collision(a, b),
{
    if accumulator_climb(element_hash, other as nat, siblings) == accumulator_climb(
        element_hash,
        index as nat,
        siblings,
    ) {
        lemma_accumulator_climb_binds(
            element_hash,
            index as nat,
            element_hash,
            other as nat,
            siblings,
        );
    }
}

} // verus!
