//! Merkle commitments over hashed trace rows.
//!
//! A commitment is the root of a binary hash tree over leaf digests; an
//! opening carries the sibling digest of every level.  `verify_path`
//! recomputes the root from a leaf and is proved to decide exactly the
//! spec-level recomputation `path_root`.

use vstd::prelude::*;
use crate::coin::sha256_of;
use vstd::arithmetic::power2::pow2;

verus! {

/// The root obtained by walking a sibling path up from a leaf that sits at
/// the given position of its level.
pub open spec fn path_root(leaf: Seq<u8>, path: Seq<Seq<u8>>, pos: int) -> Seq<u8>
    decreases path.len(),
{
    if path.len() == 0 {
        leaf
    } else {
        let parent = if pos % 2 == 0 {
            sha256_of(leaf + path[0])
        } else {
            sha256_of(path[0] + leaf)
        };
        path_root(parent, path.subrange(1, path.len() as int), pos / 2)
    }
}

/// Hashes two sibling digests into their parent.
fn hash_pair(left: &Vec<u8>, right: &Vec<u8>) -> (r: Vec<u8>)
    ensures
        r@ == sha256_of(left@ + right@),
        r@.len() == 32,
{
    let mut buf: Vec<u8> = Vec::new();
    let mut i: usize = 0;
    while i < left.len()
        invariant
            0 <= i <= left@.len(),
            buf@ == left@.subrange(0, i as int),
        decreases left@.len() - i,
    {
        buf.push(left[i]);
        i = i + 1;
        proof {
            assert(buf@ =~= left@.subrange(0, i as int));
        }
    }
    let mut j: usize = 0;
    while j < right.len()
        invariant
            0 <= j <= right@.len(),
            buf@ == left@.subrange(0, left@.len() as int) + right@.subrange(0, j as int),
        decreases right@.len() - j,
    {
        buf.push(right[j]);
        j = j + 1;
        proof {
            assert(buf@ =~= left@.subrange(0, left@.len() as int) + right@.subrange(
                0,
                j as int,
            ));
        }
    }
    proof {
        assert(left@.subrange(0, left@.len() as int) =~= left@);
        assert(right@.subrange(0, right@.len() as int) =~= right@);
        assert(buf@ =~= left@ + right@);
    }
    crate::coin::hash_bytes(&buf)
}

/// Decides whether a leaf digest opens to a commitment along a sibling
/// path from a query position.
pub fn verify_path(commitment: &Vec<u8>, leaf: &Vec<u8>, path: &Vec<Vec<u8>>, position: u64) -> (r:
    bool)
    ensures
        r == (path_root(leaf@, path@.map_values(|v: Vec<u8>| v@), position as int)
            == commitment@),
{
    let mut node: Vec<u8> = leaf.clone();
    let mut pos: u64 = position;
    let mut i: usize = 0;
    proof {
        assert(node@ == leaf@);
        assert(path@.map_values(|v: Vec<u8>| v@).subrange(0, path@.len() as int)
            =~= path@.map_values(|v: Vec<u8>| v@));
    }
    while i < path.len()
        invariant
            0 <= i <= path@.len(),
            path_root(leaf@, path@.map_values(|v: Vec<u8>| v@), position as int) == path_root(
                node@,
                path@.map_values(|v: Vec<u8>| v@).subrange(i as int, path@.len() as int),
                pos as int,
            ),
        decreases path@.len() - i,
    {
        let ghost specpath = path@.map_values(|v: Vec<u8>| v@);
        let ghost rest = specpath.subrange(i as int, path@.len() as int);
        let sibling = &path[i];
        let parent = if pos % 2 == 0 {
            hash_pair(&node, sibling)
        } else {
            hash_pair(sibling, &node)
        };
        proof {
            assert(rest[0] == specpath[i as int]);
            assert(rest.subrange(1, rest.len() as int) =~= specpath.subrange(
                i + 1,
                path@.len() as int,
            ));
        }
        node = parent;
        pos = pos / 2;
        i = i + 1;
    }
    proof {
        assert(path@.map_values(|v: Vec<u8>| v@).subrange(
            path@.len() as int,
            path@.len() as int,
        ) =~= Seq::<Seq<u8>>::empty());
    }
    compare_bytes(&node, commitment)
}

/// Compares two byte strings for equality.
fn compare_bytes(a: &Vec<u8>, b: &Vec<u8>) -> (r: bool)
    ensures
        r == (a@ == b@),
{
    if a.len() != b.len() {
        proof {
            assert(a@ != b@);
        }
        return false;
    }
    let mut i: usize = 0;
    while i < a.len()
        invariant
            0 <= i <= a@.len(),
            a@.len() == b@.len(),
            forall|j: int| 0 <= j < i ==> #[trigger] a@[j] == b@[j],
        decreases a@.len() - i,
    {
        if a[i] != b[i] {
            proof {
                assert(a@[i as int] != b@[i as int]);
            }
            return false;
        }
        i = i + 1;
    }
    proof {
        assert(a@ =~= b@);
    }
    true
}

/// Appending a sibling to an opening extends the recomputed root by one
/// more hashing level, at the position the walk has reached.
pub proof fn lemma_path_root_push(leaf: Seq<u8>, path: Seq<Seq<u8>>, pos: int, s: Seq<u8>)
    requires
        pos >= 0,
    ensures
        path_root(leaf, path.push(s), pos) == ({
            let r = path_root(leaf, path, pos);
            if (pos / pow2(path.len()) as int) % 2 == 0 {
                sha256_of(r + s)
            } else {
                sha256_of(s + r)
            }
        }),
    decreases path.len(),
{
    broadcast use vstd::arithmetic::power2::lemma_pow2_pos;

    if path.len() == 0 {
        assert(path.push(s)[0] == s);
        assert(path.push(s).subrange(1, 1) =~= Seq::<Seq<u8>>::empty());
        assert(pow2(0) == 1) by {
            vstd::arithmetic::power2::lemma2_to64();
        }
        let parent = if pos % 2 == 0 {
            sha256_of(leaf + s)
        } else {
            sha256_of(s + leaf)
        };
        assert(path_root(parent, Seq::<Seq<u8>>::empty(), pos / 2) == parent);
        assert(path_root(leaf, path.push(s), pos) == parent);
        assert(path_root(leaf, path, pos) == leaf);
        assert(pos / pow2(0) as int == pos);
    } else {
        let parent = if pos % 2 == 0 {
            sha256_of(leaf + path[0])
        } else {
            sha256_of(path[0] + leaf)
        };
        assert(path.push(s)[0] == path[0]);
        assert(path.push(s).subrange(1, path.len() as int + 1) =~= path.subrange(
            1,
            path.len() as int,
        ).push(s));
        lemma_path_root_push(parent, path.subrange(1, path.len() as int), pos / 2, s);
        assert(pow2(path.len()) == 2 * pow2((path.len() - 1) as nat)) by {
            vstd::arithmetic::power2::lemma_pow2_unfold(path.len());
        }
        assert((pos / 2) / pow2((path.len() - 1) as nat) as int == pos / pow2(
            path.len(),
        ) as int) by {
            vstd::arithmetic::div_mod::lemma_div_denominator(
                pos,
                2,
                pow2((path.len() - 1) as nat) as int,
            );
        }
    }
}

/// Copies a digest.
fn copy_digest(v: &Vec<u8>) -> (r: Vec<u8>)
    ensures
        r@ == v@,
{
    let mut out: Vec<u8> = Vec::new();
    let mut i: usize = 0;
    while i < v.len()
        invariant
            0 <= i <= v@.len(),
            out@ == v@.subrange(0, i as int),
        decreases v@.len() - i,
    {
        out.push(v[i]);
        i = i + 1;
        proof {
            assert(out@ =~= v@.subrange(0, i as int));
        }
    }
    proof {
        assert(v@.subrange(0, v@.len() as int) =~= v@);
    }
    out
}

/// Builds the full tree above a power-of-two level of leaf digests and
/// returns the root together with the sibling path of every leaf.  Every
/// returned path opens its leaf to the returned root at the leaf's
/// position.
#[verifier::rlimit(100)]
#[verifier::spinoff_prover]
pub fn commit_with_paths(leaves: &Vec<Vec<u8>>) -> (r: (Vec<u8>, Vec<Vec<Vec<u8>>>))
    requires
        leaves@.len() >= 1,
        crate::trace::is_pow2(leaves@.len() as nat),
        forall|i: int| 0 <= i < leaves@.len() ==> (#[trigger] leaves@[i])@.len() == 32,
    ensures
        r.1@.len() == leaves@.len(),
        forall|t: int|
            0 <= t < leaves@.len() ==> path_root(
                leaves@[t]@,
                (#[trigger] r.1@[t])@.map_values(|w: Vec<u8>| w@),
                t,
            ) == r.0@,
{
    broadcast use vstd::arithmetic::power2::lemma_pow2_pos;

    let mut level: Vec<Vec<u8>> = Vec::new();
    let mut i: usize = 0;
    while i < leaves.len()
        invariant
            0 <= i <= leaves@.len(),
            level@.len() == i,
            forall|j: int| 0 <= j < i ==> (#[trigger] level@[j])@ == leaves@[j]@,
            forall|j: int| 0 <= j < leaves@.len() ==> (#[trigger] leaves@[j])@.len() == 32,
        decreases leaves@.len() - i,
    {
        level.push(copy_digest(&leaves[i]));
        i = i + 1;
    }
    let mut paths: Vec<Vec<Vec<u8>>> = Vec::new();
    let mut k: usize = 0;
    while k < leaves.len()
        invariant
            paths@.len() == k,
            0 <= k <= leaves@.len(),
            forall|j: int| 0 <= j < k ==> (#[trigger] paths@[j])@.len() == 0,
        decreases leaves@.len() - k,
    {
        paths.push(Vec::new());
        k = k + 1;
    }
    let mut positions: Vec<usize> = Vec::new();
    let mut k2: usize = 0;
    while k2 < leaves.len()
        invariant
            positions@.len() == k2,
            0 <= k2 <= leaves@.len(),
            forall|j: int| 0 <= j < k2 ==> #[trigger] positions@[j] == j,
        decreases leaves@.len() - k2,
    {
        positions.push(k2);
        k2 = k2 + 1;
    }
    let ghost mut depth: nat = 0;
    proof {
        assert(pow2(0) == 1) by {
            vstd::arithmetic::power2::lemma2_to64();
        }
        assert forall|t: int| 0 <= t < leaves@.len() implies path_root(
            leaves@[t]@,
            (#[trigger] paths@[t])@.map_values(|w: Vec<u8>| w@),
            t,
        ) == level@[positions@[t] as int]@ by {
            assert(paths@[t]@.map_values(|w: Vec<u8>| w@) =~= Seq::<Seq<u8>>::empty());
        }
    }
    while level.len() > 1
        invariant
            level@.len() >= 1,
            crate::trace::is_pow2(level@.len() as nat),
            forall|j: int| 0 <= j < level@.len() ==> (#[trigger] level@[j])@.len() == 32,
            paths@.len() == leaves@.len(),
            positions@.len() == leaves@.len(),
            forall|j: int| 0 <= j < leaves@.len() ==> (#[trigger] leaves@[j])@.len() == 32,
            level@.len() * pow2(depth) == leaves@.len(),
            forall|t: int| 0 <= t < leaves@.len() ==> (#[trigger] paths@[t])@.len() == depth,
            forall|t: int|
                0 <= t < leaves@.len() ==> #[trigger] positions@[t] as int == t / pow2(
                    depth,
                ) as int,
            forall|t: int| 0 <= t < positions@.len() ==> #[trigger] positions@[t]
                < level@.len(),
            forall|t: int|
                0 <= t < leaves@.len() ==> path_root(
                    leaves@[t]@,
                    (#[trigger] paths@[t])@.map_values(|w: Vec<u8>| w@),
                    t,
                ) == level@[positions@[t] as int]@,
        decreases level@.len(),
    {
        let ghost old_level = level@;
        let ghost old_paths = paths@;
        let ghost old_positions = positions@;
        let width = level.len();
        proof {
            assert(width % 2 == 0 && width >= 2);
        }
        // record each leaf's sibling at this level
        let mut t: usize = 0;
        while t < paths.len()
            invariant
                0 <= t <= paths@.len(),
                paths@.len() == leaves@.len(),
                positions@.len() == leaves@.len(),
                positions@ == old_positions,
                level@ == old_level,
                level@.len() == width,
                width % 2 == 0,
                width >= 2,
                forall|j: int| 0 <= j < level@.len() ==> (#[trigger] level@[j])@.len() == 32,
                forall|j: int| 0 <= j < positions@.len() ==> #[trigger] positions@[j]
                    < level@.len(),
                forall|j: int| t <= j < paths@.len() ==> #[trigger] paths@[j]
                    == old_paths[j],
                forall|j: int|
                    0 <= j < t ==> (#[trigger] paths@[j])@.len() == old_paths[j]@.len() + 1
                        && paths@[j]@.subrange(0, old_paths[j]@.len() as int)
                        == old_paths[j]@ && paths@[j]@[old_paths[j]@.len() as int]@ == (
                    if old_positions[j] % 2 == 0 {
                        level@[old_positions[j] as int + 1]@
                    } else {
                        level@[old_positions[j] as int - 1]@
                    }),
            decreases paths@.len() - t,
        {
            let pos = positions[t];
            proof {
                if pos % 2 == 0 {
                    assert(pos + 1 < width);
                }
            }
            let sib = if pos % 2 == 0 {
                copy_digest(&level[pos + 1])
            } else {
                copy_digest(&level[pos - 1])
            };
            let ghost prev = paths@[t as int];
            let mut p = paths.remove(t);
            p.push(sib);
            paths.insert(t, p);
            t = t + 1;
            proof {
                assert(paths@[t - 1]@.subrange(0, prev@.len() as int) =~= prev@);
            }
        }
        // hash the level pairwise
        let mut parents: Vec<Vec<u8>> = Vec::new();
        let mut u: usize = 0;
        while u + 1 < width
            invariant
                level@ == old_level,
                level@.len() == width,
                width % 2 == 0,
                forall|j: int| 0 <= j < level@.len() ==> (#[trigger] level@[j])@.len() == 32,
                u % 2 == 0,
                u <= width,
                parents@.len() == u / 2,
                forall|j: int|
                    0 <= j < parents@.len() ==> (#[trigger] parents@[j])@ == sha256_of(
                        level@[2 * j]@ + level@[2 * j + 1]@,
                    ),
                forall|j: int| 0 <= j < parents@.len() ==> (#[trigger] parents@[j])@.len()
                    == 32,
            decreases width - u,
        {
            parents.push(hash_pair(&level[u], &level[u + 1]));
            u = u + 2;
        }
        proof {
            assert(u == width);
            assert(parents@.len() == width / 2);
            assert(parents@.len() >= 1);
            assert(parents@.len() < width);
        }
        // move every leaf's position up one level
        let mut v: usize = 0;
        while v < positions.len()
            invariant
                0 <= v <= positions@.len(),
                positions@.len() == leaves@.len(),
                parents@.len() >= 1,
                parents@.len() * 2 == width,
                forall|j: int| v <= j < positions@.len() ==> #[trigger] positions@[j]
                    == old_positions[j],
                forall|j: int| 0 <= j < positions@.len() ==> #[trigger] positions@[j]
                    < width,
                forall|j: int| 0 <= j < v ==> #[trigger] positions@[j] as int
                    == old_positions[j] as int / 2,
            decreases positions@.len() - v,
        {
            let np = positions[v] / 2;
            positions.set(v, np);
            v = v + 1;
        }
        level = parents;
        proof {
            depth = depth + 1;
            assert(pow2(depth) == 2 * pow2((depth - 1) as nat)) by {
                vstd::arithmetic::power2::lemma_pow2_unfold(depth);
            }
            assert(level@.len() * pow2(depth) == leaves@.len()) by (nonlinear_arith)
                requires
                    level@.len() * 2 == old_level.len(),
                    old_level.len() * pow2((depth - 1) as nat) == leaves@.len(),
                    pow2(depth) == 2 * pow2((depth - 1) as nat);
            assert forall|t2: int| 0 <= t2 < leaves@.len() implies #[trigger] positions@[t2] as int
                == t2 / pow2(depth) as int by {
                vstd::arithmetic::div_mod::lemma_div_denominator(
                    t2,
                    pow2((depth - 1) as nat) as int,
                    2,
                );
                assert(pow2((depth - 1) as nat) * 2 == pow2(depth));
            }
            assert forall|t2: int| 0 <= t2 < leaves@.len() implies path_root(
                leaves@[t2]@,
                (#[trigger] paths@[t2])@.map_values(|w: Vec<u8>| w@),
                t2,
            ) == level@[positions@[t2] as int]@ by {
                let prev = old_paths[t2]@.map_values(|w: Vec<u8>| w@);
                let cur = paths@[t2]@.map_values(|w: Vec<u8>| w@);
                let pos = old_positions[t2] as int;
                let sibv = if pos % 2 == 0 {
                    old_level[pos + 1]@
                } else {
                    old_level[pos - 1]@
                };
                assert(cur =~= prev.push(sibv));
                lemma_path_root_push(leaves@[t2]@, prev, t2, sibv);
                assert(t2 / pow2((depth - 1) as nat) as int == pos);
                if pos % 2 == 0 {
                    assert(level@[pos / 2]@ == sha256_of(
                        old_level[2 * (pos / 2)]@ + old_level[2 * (pos / 2) + 1]@,
                    ));
                    assert(2 * (pos / 2) == pos);
                } else {
                    assert(level@[pos / 2]@ == sha256_of(
                        old_level[2 * (pos / 2)]@ + old_level[2 * (pos / 2) + 1]@,
                    ));
                    assert(2 * (pos / 2) == pos - 1);
                }
            }
        }
    }
    let root = copy_digest(&level[0]);
    proof {
        assert forall|t: int| 0 <= t < leaves@.len() implies path_root(
            leaves@[t]@,
            (#[trigger] paths@[t])@.map_values(|w: Vec<u8>| w@),
            t,
        ) == root@ by {
            assert(pow2(depth) == leaves@.len()) by (nonlinear_arith)
                requires level@.len() == 1 && level@.len() * pow2(depth) == leaves@.len();
            assert(t / pow2(depth) as int == 0) by {
                vstd::arithmetic::div_mod::lemma_basic_div(t, pow2(depth) as int);
            }
            assert(positions@[t] as int == 0);
        }
    }
    (root, paths)
}

} // verus!
