//! The Merkle builder: aggregates an ordered sequence of leaf digests into a
//! single root by repeatedly hashing adjacent pairs, duplicating the last
//! element of an odd level. The empty batch's root is the hash of the empty
//! string.

use crate::hashing::sha256_hex;
use crate::hashing::sha256_hex_of;
use vstd::prelude::*;

verus! {

/// The parent digest of two adjacent digests: the hash of their concatenation.
pub open spec fn merkle_pair_hash(a: Seq<char>, b: Seq<char>) -> Seq<char> {
    sha256_hex_of(a + b)
}

/// A level padded to even length by duplicating its last element.
pub open spec fn merkle_pad(h: Seq<Seq<char>>) -> Seq<Seq<char>> {
    if h.len() % 2 == 1 {
        h.push(h.last())
    } else {
        h
    }
}

/// One aggregation pass: each adjacent pair of the level, left to right,
/// hashed into a parent digest.
pub open spec fn merkle_combine(h: Seq<Seq<char>>) -> Seq<Seq<char>>
    decreases h.len(),
{
    if h.len() < 2 {
        Seq::empty()
    } else {
        seq![merkle_pair_hash(h[0], h[1])] + merkle_combine(h.skip(2))
    }
}

/// One pass halves a level's length (rounding down).
pub proof fn lemma_merkle_combine_len(h: Seq<Seq<char>>)
    ensures
        merkle_combine(h).len() == h.len() / 2,
    decreases h.len(),
{
    if h.len() >= 2 {
        lemma_merkle_combine_len(h.skip(2));
    }
}

/// The Merkle root of an ordered level of digests.
pub open spec fn merkle_root_of(h: Seq<Seq<char>>) -> Seq<char>
    decreases h.len(),
    via merkle_root_of_decreases
{
    if h.len() == 0 {
        sha256_hex_of(Seq::empty())
    } else if h.len() == 1 {
        h[0]
    } else {
        merkle_root_of(merkle_combine(merkle_pad(h)))
    }
}

#[via_fn]
proof fn merkle_root_of_decreases(h: Seq<Seq<char>>) {
    if h.len() >= 2 {
        lemma_merkle_combine_len(merkle_pad(h));
    }
}

/// The root of the empty batch is the hash of the empty string.
pub proof fn lemma_merkle_empty()
    ensures
        merkle_root_of(Seq::empty()) == sha256_hex_of(Seq::<char>::empty()),
{
}

/// Padding an odd level before aggregating is exactly what the root already
/// accounts for: the root of a padded level equals the root of the level.
pub proof fn lemma_merkle_pad_root(h: Seq<Seq<char>>)
    requires
        h.len() >= 2,
    ensures
        merkle_root_of(merkle_pad(h)) == merkle_root_of(h),
{
    assert(merkle_pad(merkle_pad(h)) == merkle_pad(h));
}

/// Appending one adjacent pair to an even level appends its parent digest to
/// the aggregation pass.
pub proof fn lemma_merkle_combine_snoc(t: Seq<Seq<char>>, a: Seq<char>, b: Seq<char>)
    requires
        t.len() % 2 == 0,
    ensures
        merkle_combine(t + seq![a, b]) == merkle_combine(t) + seq![merkle_pair_hash(a, b)],
    decreases t.len(),
{
    if t.len() == 0 {
        let s2 = t + seq![a, b];
        assert(s2 =~= seq![a, b]);
        assert(s2.len() == 2 && s2[0] == a && s2[1] == b);
        assert(s2.skip(2) =~= Seq::<Seq<char>>::empty());
        assert(merkle_combine(s2.skip(2)) =~= Seq::<Seq<char>>::empty());
        assert(merkle_combine(s2) == seq![merkle_pair_hash(s2[0], s2[1])] + merkle_combine(
            s2.skip(2),
        ));
        assert(merkle_combine(s2) =~= seq![merkle_pair_hash(a, b)]);
        assert(merkle_combine(t) =~= Seq::<Seq<char>>::empty());
        assert(merkle_combine(t) + seq![merkle_pair_hash(a, b)] =~= seq![
            merkle_pair_hash(a, b),
        ]);
        assert(merkle_combine(t) + seq![merkle_pair_hash(a, b)] =~= seq![
            merkle_pair_hash(a, b),
        ]);
    } else {
        let u = t + seq![a, b];
        assert(u[0] == t[0] && u[1] == t[1]);
        assert(u.skip(2) =~= t.skip(2) + seq![a, b]);
        lemma_merkle_combine_snoc(t.skip(2), a, b);
        assert(merkle_combine(u) =~= merkle_combine(t) + seq![merkle_pair_hash(a, b)]);
    }
}

/// The character sequences of a vector of digest strings.
pub open spec fn str_views(s: Seq<String>) -> Seq<Seq<char>> {
    s.map_values(|x: String| x@)
}

/// The parent digest of two adjacent digests.
fn merkle_pair(a: &str, b: &str) -> (r: String)
    ensures
        r@ == merkle_pair_hash(a@, b@),
{
    let mut s = a.to_owned();
    s.append(b);
    sha256_hex(s.as_str())
}

/// Aggregates an ordered batch of leaf digests into its Merkle root.
pub fn merkle_root_from_hashes(hashes: Vec<String>) -> (r: String)
    ensures
        r@ == merkle_root_of(str_views(hashes@)),
{
    let ghost orig = str_views(hashes@);
    if hashes.is_empty() {
        proof {
            reveal_strlit("");
            assert(""@ =~= Seq::<char>::empty());
            assert(orig =~= Seq::<Seq<char>>::empty());
        }
        return sha256_hex("");
    }
    let mut hashes = hashes;
    while hashes.len() > 1
        invariant
            hashes.len() >= 1,
            merkle_root_of(str_views(hashes@)) == merkle_root_of(orig),
        decreases hashes.len(),
    {
        let ghost level = str_views(hashes@);
        if hashes.len() % 2 == 1 {
            let last = hashes[hashes.len() - 1].clone();
            hashes.push(last);
            proof {
                assert(str_views(hashes@) =~= merkle_pad(level));
                lemma_merkle_pad_root(level);
            }
        } else {
            proof {
                assert(str_views(hashes@) =~= merkle_pad(level));
            }
        }
        let ghost padded = str_views(hashes@);
        let mut next: Vec<String> = Vec::new();
        let mut i: usize = 0;
        proof {
            assert(padded.take(0) =~= Seq::<Seq<char>>::empty());
            assert(str_views(next@) =~= merkle_combine(padded.take(0)));
        }
        while i < hashes.len() - 1
            invariant
                i % 2 == 0,
                i <= hashes.len(),
                hashes@.len() >= 2,
                hashes@.len() % 2 == 0,
                padded == str_views(hashes@),
                str_views(next@) == merkle_combine(padded.take(i as int)),
            decreases hashes.len() - i,
        {
            let p = merkle_pair(hashes[i].as_str(), hashes[i + 1].as_str());
            next.push(p);
            proof {
                let t = padded.take(i as int);
                assert(padded.take(i + 2) =~= t + seq![padded[i as int], padded[i + 1]]);
                lemma_merkle_combine_snoc(t, padded[i as int], padded[i + 1]);
                assert(str_views(next@) =~= merkle_combine(padded.take(i + 2)));
            }
            i = i + 2;
        }
        proof {
            assert(i == hashes@.len());
            assert(padded.take(i as int) =~= padded);
            lemma_merkle_combine_len(padded);
            assert(merkle_root_of(padded) == merkle_root_of(merkle_combine(merkle_pad(padded))));
            assert(merkle_pad(padded) =~= padded);
        }
        hashes = next;
    }
    proof {
        assert(str_views(hashes@)[0] == hashes@[0]@);
        assert(merkle_root_of(str_views(hashes@)) == hashes@[0]@);
    }
    let r = hashes[0].clone();
    proof {
        assert(r@ == merkle_root_of(orig));
    }
    r
}

} // verus!
