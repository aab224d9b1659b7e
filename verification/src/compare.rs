//! Evaluations across the registry and across truncation lengths: the best
//! algorithm for a length, the per-length sweep for an algorithm, and the
//! weighted average that the sweep report derives.

use vstd::prelude::*;
use vstd::arithmetic::div_mod::lemma_div_is_ordered;
use vstd::arithmetic::div_mod::lemma_div_multiples_vanish;

use crate::anonymity::AnonymityError;
use crate::anonymity::HashAnonymity;
use crate::anonymity::bucket;
use crate::anonymity::bucket_counts;
use crate::anonymity::k_anonymity;
use crate::anonymity::min_count;
use crate::anonymity::pwd_views;
use crate::anonymity::spec_bucket;
use crate::digest::HashingDigest;
use crate::digest::hex_len;
use crate::digest::hex_length;
use crate::digest::list_algorithms;
use crate::digest::registry;

verus! {

/// The k-anonymity one algorithm and truncation length achieve on a
/// password collection.
pub open spec fn k_anonymity_of(digest: HashingDigest, n: int, passwords: Seq<Seq<char>>) -> nat {
    min_count(spec_bucket(digest, n, passwords))
}

/// Computes, for every algorithm in registry order, the k-anonymity it
/// achieves under the given truncation length.
pub fn compare_and_find_best_digest(
    hash_anonymity: &HashAnonymity,
    passwords: &Vec<String>,
) -> (r: Result<Vec<(HashingDigest, usize)>, AnonymityError>)
    ensures
        ({
            let n = hash_anonymity.spec_first_bits();
            &&& ((1 <= n && forall|i: int|
                0 <= i < registry().len() ==> n as nat <= hex_len(#[trigger] registry()[i]))
                <==> r is Ok)
            &&& (n == 0 ==> r == Result::<Vec<(HashingDigest, usize)>, AnonymityError>::Err(
                AnonymityError::InvalidTruncation,
            ))
            &&& (r is Err && n >= 1 ==> r == Result::<
                Vec<(HashingDigest, usize)>,
                AnonymityError,
            >::Err(AnonymityError::TruncationOutOfRange))
            &&& (r matches Ok(v) ==> v@.len() == registry().len() && forall|i: int|
                0 <= i < v@.len() ==> (#[trigger] v@[i]).0 == registry()[i] && v@[i].1 as nat
                    == k_anonymity_of(registry()[i], n as int, pwd_views(passwords@)))
        }),
{
    let n = hash_anonymity.first_bits();
    let algs = list_algorithms();
    let mut out: Vec<(HashingDigest, usize)> = Vec::new();
    let mut idx: usize = 0;
    while idx < algs.len()
        invariant
            algs@ == registry(),
            idx <= algs@.len(),
            out@.len() == idx,
            n == hash_anonymity.spec_first_bits(),
            forall|i: int|
                0 <= i < idx ==> (#[trigger] out@[i]).0 == registry()[i] && out@[i].1 as nat
                    == k_anonymity_of(registry()[i], n as int, pwd_views(passwords@)),
            forall|i: int|
                0 <= i < idx ==> 1 <= n && n as nat <= hex_len(#[trigger] registry()[i]),
        decreases algs@.len() - idx,
    {
        let d = algs[idx];
        match bucket(d, n, passwords) {
            Ok(m) => {
                let k = k_anonymity(&m);
                out.push((d, k));
            },
            Err(e) => {
                proof {
                    if n >= 1 {
                        assert(!(n as nat <= hex_len(registry()[idx as int])));
                    }
                }
                return Err(e);
            },
        }
        idx = idx + 1;
    }
    Ok(out)
}

/// Finds the algorithm achieving the maximum k-anonymity under the given
/// truncation length; ties go to the algorithm appearing first in registry
/// order.
pub fn best_digest(truncation_length: usize, passwords: &Vec<String>) -> (r: Result<
    (HashingDigest, usize),
    AnonymityError,
>)
    ensures
        ((1 <= truncation_length && forall|i: int|
            0 <= i < registry().len() ==> truncation_length as nat <= hex_len(
                #[trigger] registry()[i],
            )) <==> r is Ok),
        truncation_length == 0 ==> r == Result::<(HashingDigest, usize), AnonymityError>::Err(
            AnonymityError::InvalidTruncation,
        ),
        r is Err && truncation_length >= 1 ==> r == Result::<
            (HashingDigest, usize),
            AnonymityError,
        >::Err(AnonymityError::TruncationOutOfRange),
        r matches Ok(p) ==> (forall|j: int|
            0 <= j < registry().len() ==> k_anonymity_of(
                #[trigger] registry()[j],
                truncation_length as int,
                pwd_views(passwords@),
            ) <= p.1 as nat) && (exists|i: int|
            0 <= i < registry().len() && p.0 == #[trigger] registry()[i] && p.1 as nat
                == k_anonymity_of(registry()[i], truncation_length as int, pwd_views(passwords@))
                && (forall|j: int|
                0 <= j < i ==> k_anonymity_of(
                    #[trigger] registry()[j],
                    truncation_length as int,
                    pwd_views(passwords@),
                ) < p.1 as nat)),
{
    let hash_anonymity = HashAnonymity::for_first_bits(truncation_length);
    let perfs = match compare_and_find_best_digest(&hash_anonymity, passwords) {
        Ok(v) => v,
        Err(e) => {
            return Err(e);
        },
    };
    let mut best = perfs[0];
    let mut best_idx: usize = 0;
    let mut j: usize = 1;
    while j < perfs.len()
        invariant
            perfs@.len() == registry().len(),
            forall|i: int|
                0 <= i < perfs@.len() ==> (#[trigger] perfs@[i]).0 == registry()[i] && perfs@[
                    i
                ].1 as nat == k_anonymity_of(
                    registry()[i],
                    truncation_length as int,
                    pwd_views(passwords@),
                ),
            1 <= j <= perfs@.len(),
            best_idx < j,
            best == perfs@[best_idx as int],
            forall|i: int| 0 <= i < j ==> (#[trigger] perfs@[i]).1 <= best.1,
            forall|i: int| 0 <= i < best_idx ==> (#[trigger] perfs@[i]).1 < best.1,
        decreases perfs@.len() - j,
    {
        let c = perfs[j];
        if c.1 > best.1 {
            best = c;
            best_idx = j;
        }
        j = j + 1;
    }
    proof {
        let ghost n = truncation_length as int;
        let ghost pwds = pwd_views(passwords@);
        assert(best.0 == registry()[best_idx as int]);
        assert(best.1 as nat == k_anonymity_of(registry()[best_idx as int], n, pwds));
        assert forall|jj: int|
            0 <= jj < registry().len() implies k_anonymity_of(#[trigger] registry()[jj], n, pwds)
            <= best.1 as nat by {
            assert(perfs@[jj].1 <= best.1);
        }
        assert forall|jj: int|
            0 <= jj < best_idx implies k_anonymity_of(#[trigger] registry()[jj], n, pwds)
            < best.1 as nat by {
            assert(perfs@[jj].1 < best.1);
        }
    }
    Ok(best)
}

/// Repeats the bucket computation for every truncation length `1..=max`,
/// pairing each length with the k-anonymity it achieves.
pub fn sweep_lengths(digest: HashingDigest, passwords: &Vec<String>, max_length: usize) -> (r:
    Result<Vec<(usize, usize)>, AnonymityError>)
    ensures
        (max_length as nat <= hex_len(digest)) <==> r is Ok,
        max_length as nat > hex_len(digest) ==> r == Result::<
            Vec<(usize, usize)>,
            AnonymityError,
        >::Err(AnonymityError::TruncationOutOfRange),
        r matches Ok(v) ==> v@.len() == max_length && forall|i: int|
            0 <= i < v@.len() ==> (#[trigger] v@[i]).0 as int == i + 1 && v@[i].1 as nat
                == k_anonymity_of(digest, i + 1, pwd_views(passwords@)),
{
    if max_length > hex_length(digest) {
        return Err(AnonymityError::TruncationOutOfRange);
    }
    let mut out: Vec<(usize, usize)> = Vec::new();
    let mut l: usize = 1;
    while l <= max_length
        invariant
            1 <= l,
            l <= max_length + 1,
            max_length as nat <= hex_len(digest),
            out@.len() == l - 1,
            forall|i: int|
                0 <= i < out@.len() ==> (#[trigger] out@[i]).0 as int == i + 1 && out@[i].1 as nat
                    == k_anonymity_of(digest, i + 1, pwd_views(passwords@)),
        decreases max_length + 1 - l,
    {
        let m = bucket_counts(digest, l, passwords);
        let k = k_anonymity(&m);
        out.push((l, k));
        l = l + 1;
    }
    Ok(out)
}

/// The leading run of k-anonymity values above one: what the average
/// considers.
pub open spec fn leading_over_one(ks: Seq<usize>) -> Seq<usize>
    decreases ks.len(),
{
    if ks.len() == 0 {
        Seq::empty()
    } else if ks.first() <= 1 {
        Seq::empty()
    } else {
        seq![ks.first()] + leading_over_one(ks.drop_first())
    }
}

/// The sum of each value weighted by its position.
pub open spec fn weighted_sum(ks: Seq<usize>) -> nat
    decreases ks.len(),
{
    if ks.len() == 0 {
        0
    } else {
        (weighted_sum(ks.drop_last()) + (ks.len() - 1) * ks.last()) as nat
    }
}

/// The sum of the positions.
pub open spec fn index_sum(ks: Seq<usize>) -> nat
    decreases ks.len(),
{
    if ks.len() == 0 {
        0
    } else {
        (index_sum(ks.drop_last()) + (ks.len() - 1)) as nat
    }
}

/// The leading run above one is the prefix before the first value at or
/// below one.
proof fn lemma_leading_take(ks: Seq<usize>, p: int)
    requires
        0 <= p <= ks.len(),
        forall|i: int| 0 <= i < p ==> ks[i] > 1,
        p == ks.len() || ks[p] <= 1,
    ensures
        leading_over_one(ks) == ks.take(p),
    decreases p,
{
    if p == 0 {
        assert(ks.take(0) =~= Seq::<usize>::empty());
        if ks.len() > 0 {
            assert(ks.first() == ks[0]);
        }
    } else {
        assert(ks.first() == ks[0]);
        assert(ks[0] > 1);
        assert(forall|i: int|
            0 <= i < p - 1 ==> #[trigger] ks.drop_first()[i] == ks[i + 1]);
        if p - 1 < ks.drop_first().len() {
            assert(ks.drop_first()[p - 1] == ks[p]);
        }
        lemma_leading_take(ks.drop_first(), p - 1);
        assert(seq![ks.first()] + ks.drop_first().take(p - 1) =~= ks.take(p));
    }
}

/// The weighted sum is at most the largest representable value times the
/// index sum.
proof fn lemma_weighted_le_index(ks: Seq<usize>)
    ensures
        weighted_sum(ks) <= (usize::MAX as nat) * index_sum(ks),
    decreases ks.len(),
{
    if ks.len() > 0 {
        lemma_weighted_le_index(ks.drop_last());
        let m = usize::MAX as int;
        let w = weighted_sum(ks.drop_last()) as int;
        let s = index_sum(ks.drop_last()) as int;
        let d = ks.len() - 1;
        let v = ks.last() as int;
        assert(weighted_sum(ks) == w + d * v);
        assert(index_sum(ks) == s + d);
        assert(w + d * v <= m * s + d * m) by (nonlinear_arith)
            requires
                w <= m * s,
                0 <= v <= m,
                0 <= d,
        ;
        assert(m * s + d * m == m * (s + d)) by (nonlinear_arith);
    }
}

/// The average k-anonymity over the leading run of values above one, each
/// weighted by its position; `0` when no positive position qualifies, so
/// the division is always guarded.
pub fn avg_k_anonymity(ks: &Vec<usize>) -> (r: usize)
    requires
        ks@.len() <= 128,
    ensures
        ({
            let t = leading_over_one(ks@);
            &&& (index_sum(t) == 0 ==> r == 0)
            &&& (index_sum(t) > 0 ==> r as nat == weighted_sum(t) / index_sum(t))
        }),
{
    let mut p: usize = 0;
    while p < ks.len() && ks[p] > 1
        invariant
            p <= ks@.len(),
            forall|i: int| 0 <= i < p ==> ks@[i] > 1,
        decreases ks@.len() - p,
    {
        p = p + 1;
    }
    proof {
        lemma_leading_take(ks@, p as int);
    }
    let ghost t = leading_over_one(ks@);
    let mut num: u128 = 0;
    let mut den: u128 = 0;
    let mut j: usize = 0;
    proof {
        assert(ks@.take(0) =~= Seq::<usize>::empty());
    }
    while j < p
        invariant
            j <= p,
            p <= ks@.len(),
            ks@.len() <= 128,
            num as nat == weighted_sum(ks@.take(j as int)),
            den as nat == index_sum(ks@.take(j as int)),
            num as nat <= j as nat * (130 * (usize::MAX as nat)),
            den as nat <= j as nat * 128,
        decreases p - j,
    {
        let k = ks[j];
        proof {
            let jj = j as int;
            let kk = k as int;
            let m = usize::MAX as int;
            assert(jj * kk <= 127 * m) by (nonlinear_arith)
                requires
                    0 <= jj <= 127,
                    0 <= kk <= m,
            ;
            assert(num as int + jj * kk <= (jj + 1) * (130 * m)) by (nonlinear_arith)
                requires
                    num as int <= jj * (130 * m),
                    jj * kk <= 127 * m,
                    0 <= m,
            ;
            assert(m <= u64::MAX as int);
            assert(jj * kk <= 127 * (u64::MAX as int));
            assert((jj + 1) * (130 * m) <= 128 * (130 * (u64::MAX as int))) by (nonlinear_arith)
                requires
                    0 <= jj + 1 <= 128,
                    0 <= m <= u64::MAX as int,
            ;
        }
        num = num + (j as u128) * (k as u128);
        den = den + (j as u128);
        proof {
            assert(ks@.take(j + 1).drop_last() =~= ks@.take(j as int));
            assert(ks@.take(j + 1).last() == ks@[j as int]);
            assert(ks@.take(j + 1).len() == j + 1);
        }
        j = j + 1;
    }
    proof {
        assert(ks@.take(p as int) == t);
    }
    if den == 0 {
        return 0;
    }
    let q = num / den;
    proof {
        lemma_weighted_le_index(t);
        let m = usize::MAX as int;
        let w = weighted_sum(t) as int;
        let s = index_sum(t) as int;
        assert(m * s == s * m) by (nonlinear_arith);
        lemma_div_is_ordered(w, s * m, s);
        lemma_div_multiples_vanish(m, s);
        assert((s * m) / s == m);
        assert(w / s <= m);
        assert(q as nat == weighted_sum(t) / index_sum(t));
        assert(q <= usize::MAX as u128);
    }
    q as usize
}

} // verus!
