//! The anonymity engine: buckets a password collection by truncated hash
//! and derives the achieved k-anonymity.
//!
//! The model of a bucket map is a sequence of `(key, count)` pairs in the
//! order in which keys first appear; [`spec_bucket`] builds it one password
//! at a time, so a bucket map is pinned down completely by the algorithm,
//! the truncation length and the password collection.

use vstd::prelude::*;

use crate::digest::HashingDigest;
use crate::digest::hash_password;
use crate::digest::hex_len;
use crate::digest::hex_length;
use crate::digest::spec_hash;
use crate::hex_str::all_hex_chars;
use crate::hex_str::lemma_hex_chars_ascii;

verus! {

/// The errors the engine surfaces. `UnsupportedAlgorithm` is defensive:
/// every value of the closed [`HashingDigest`] set is supported, so no
/// call of this library returns it.
#[derive(Clone, Copy, Debug, PartialEq, Eq, Structural)]
pub enum AnonymityError {
    /// The truncation length is zero.
    InvalidTruncation,
    /// The truncation length exceeds the digest's hex length.
    TruncationOutOfRange,
    /// The algorithm is outside the closed registry.
    UnsupportedAlgorithm,
}

/// The anonymity-set key of one password: the first `n` characters of its
/// lowercase hex digest.
pub open spec fn key_of(digest: HashingDigest, n: int, password: Seq<char>) -> Seq<char> {
    spec_hash(digest, password).take(n)
}

/// The views of a password collection.
pub open spec fn pwd_views(passwords: Seq<String>) -> Seq<Seq<char>> {
    passwords.map_values(|p: String| p@)
}

/// The position of a key among bucket entries, or `-1` if it is absent.
pub open spec fn find_key(entries: Seq<(Seq<char>, nat)>, k: Seq<char>) -> int
    decreases entries.len(),
{
    if entries.len() == 0 {
        -1
    } else if entries.first().0 == k {
        0
    } else if find_key(entries.drop_first(), k) < 0 {
        -1
    } else {
        find_key(entries.drop_first(), k) + 1
    }
}

/// Whether a key has a bucket.
pub open spec fn has_key(entries: Seq<(Seq<char>, nat)>, k: Seq<char>) -> bool {
    0 <= find_key(entries, k)
}

/// The count of a key's bucket, `0` if the key has none.
pub open spec fn count_of(entries: Seq<(Seq<char>, nat)>, k: Seq<char>) -> nat {
    if has_key(entries, k) {
        entries[find_key(entries, k)].1
    } else {
        0
    }
}

/// The sum of all bucket counts.
pub open spec fn total_count(entries: Seq<(Seq<char>, nat)>) -> nat
    decreases entries.len(),
{
    if entries.len() == 0 {
        0
    } else {
        total_count(entries.drop_last()) + entries.last().1
    }
}

/// The minimum bucket count, `0` for an empty map.
pub open spec fn min_count(entries: Seq<(Seq<char>, nat)>) -> nat
    decreases entries.len(),
{
    if entries.len() == 0 {
        0
    } else if entries.len() == 1 {
        entries[0].1
    } else if entries.last().1 < min_count(entries.drop_last()) {
        entries.last().1
    } else {
        min_count(entries.drop_last())
    }
}

/// One password lands in its bucket: the key's count grows by one, a new
/// bucket opening with count one if the key had none.
pub open spec fn bump(entries: Seq<(Seq<char>, nat)>, k: Seq<char>) -> Seq<(Seq<char>, nat)> {
    if has_key(entries, k) {
        entries.update(find_key(entries, k), (k, (entries[find_key(entries, k)].1 + 1) as nat))
    } else {
        entries.push((k, 1nat))
    }
}

/// The bucket map of a password collection: each password in turn lands in
/// the bucket of its truncated hash.
pub open spec fn spec_bucket(
    digest: HashingDigest,
    n: int,
    passwords: Seq<Seq<char>>,
) -> Seq<(Seq<char>, nat)>
    decreases passwords.len(),
{
    if passwords.len() == 0 {
        Seq::empty()
    } else {
        bump(spec_bucket(digest, n, passwords.drop_last()), key_of(digest, n, passwords.last()))
    }
}

/// `find_key` points at the first entry holding the key, and at none when
/// the key is absent.
proof fn lemma_find_key_props(entries: Seq<(Seq<char>, nat)>, k: Seq<char>)
    ensures
        has_key(entries, k) ==> 0 <= find_key(entries, k) < entries.len()
            && entries[find_key(entries, k)].0 == k,
        forall|j: int|
            0 <= j < entries.len() && j < find_key(entries, k) ==> (#[trigger] entries[j]).0 != k,
        !has_key(entries, k) ==> forall|j: int|
            0 <= j < entries.len() ==> (#[trigger] entries[j]).0 != k,
    decreases entries.len(),
{
    if entries.len() == 0 {
    } else if entries.first().0 == k {
    } else {
        lemma_find_key_props(entries.drop_first(), k);
        assert(entries[0] == entries.first());
        assert forall|j: int|
            0 <= j < entries.len() && j < find_key(entries, k) implies (#[trigger] entries[j]).0
            != k by {
            if j >= 1 {
                assert(entries[j] == entries.drop_first()[j - 1]);
            }
        }
        if !has_key(entries, k) {
            assert forall|j: int| 0 <= j < entries.len() implies (#[trigger] entries[j]).0 != k by {
                if j >= 1 {
                    assert(entries[j] == entries.drop_first()[j - 1]);
                }
            }
        }
    }
}

/// A first occurrence of a key is where `find_key` points.
proof fn lemma_find_key_at(entries: Seq<(Seq<char>, nat)>, k: Seq<char>, j: int)
    requires
        0 <= j < entries.len(),
        entries[j].0 == k,
        forall|jj: int| 0 <= jj < j ==> (#[trigger] entries[jj]).0 != k,
    ensures
        find_key(entries, k) == j,
    decreases entries.len(),
{
    if j == 0 {
    } else {
        assert(entries[0].0 != k);
        assert(entries.drop_first()[j - 1] == entries[j]);
        assert(forall|jj: int|
            0 <= jj < j - 1 ==> #[trigger] entries.drop_first()[jj] == entries[jj + 1]);
        lemma_find_key_at(entries.drop_first(), k, j - 1);
    }
}

/// Replacing one entry shifts the total by the difference of the counts.
proof fn lemma_total_count_update(entries: Seq<(Seq<char>, nat)>, j: int, e: (Seq<char>, nat))
    requires
        0 <= j < entries.len(),
    ensures
        total_count(entries.update(j, e)) + entries[j].1 == total_count(entries) + e.1,
    decreases entries.len(),
{
    let u = entries.update(j, e);
    if j == entries.len() - 1 {
        assert(u.drop_last() =~= entries.drop_last());
        assert(u.last() == e);
    } else {
        assert(u.drop_last() =~= entries.drop_last().update(j, e));
        assert(u.last() == entries.last());
        lemma_total_count_update(entries.drop_last(), j, e);
    }
}

/// One password raises the sum of counts by one.
proof fn lemma_total_count_bump(entries: Seq<(Seq<char>, nat)>, k: Seq<char>)
    ensures
        total_count(bump(entries, k)) == total_count(entries) + 1,
{
    if has_key(entries, k) {
        lemma_find_key_props(entries, k);
        let j = find_key(entries, k);
        lemma_total_count_update(entries, j, (k, (entries[j].1 + 1) as nat));
    } else {
        let p = entries.push((k, 1nat));
        assert(p.drop_last() =~= entries);
        assert(p.last() == (k, 1nat));
    }
}

/// No bucket holds more than the sum of all counts.
proof fn lemma_count_le_total(entries: Seq<(Seq<char>, nat)>, j: int)
    requires
        0 <= j < entries.len(),
    ensures
        entries[j].1 <= total_count(entries),
    decreases entries.len(),
{
    if j == entries.len() - 1 {
    } else {
        assert(entries.drop_last()[j] == entries[j]);
        lemma_count_le_total(entries.drop_last(), j);
    }
}

/// The smallest bucket is no larger than the sum of all counts.
proof fn lemma_min_le_total(entries: Seq<(Seq<char>, nat)>)
    requires
        entries.len() > 0,
    ensures
        min_count(entries) <= total_count(entries),
    decreases entries.len(),
{
    if entries.len() == 1 {
        assert(entries[0] == entries.last());
    } else {
        lemma_min_le_total(entries.drop_last());
    }
}

/// Determinism: one algorithm, truncation length and password collection
/// admit exactly one bucket map.
pub proof fn lemma_bucket_deterministic(
    m1: Seq<(Seq<char>, nat)>,
    m2: Seq<(Seq<char>, nat)>,
    digest: HashingDigest,
    n: int,
    passwords: Seq<Seq<char>>,
)
    requires
        m1 == spec_bucket(digest, n, passwords),
        m2 == spec_bucket(digest, n, passwords),
    ensures
        m1 == m2,
{
}

/// Bucket completeness: the counts of a bucket map sum to the number of
/// passwords bucketed.
pub proof fn lemma_bucket_total(digest: HashingDigest, n: int, passwords: Seq<Seq<char>>)
    ensures
        total_count(spec_bucket(digest, n, passwords)) == passwords.len(),
    decreases passwords.len(),
{
    if passwords.len() > 0 {
        lemma_bucket_total(digest, n, passwords.drop_last());
        lemma_total_count_bump(
            spec_bucket(digest, n, passwords.drop_last()),
            key_of(digest, n, passwords.last()),
        );
    }
}

/// Non-expansion: the k-anonymity of a bucket map never exceeds the number
/// of passwords, and is zero when there are none.
pub proof fn lemma_k_anonymity_non_expansion(digest: HashingDigest, n: int, passwords: Seq<Seq<char>>)
    ensures
        passwords.len() == 0 ==> min_count(spec_bucket(digest, n, passwords)) == 0,
        passwords.len() > 0 ==> min_count(spec_bucket(digest, n, passwords)) <= passwords.len(),
{
    lemma_bucket_total(digest, n, passwords);
    let m = spec_bucket(digest, n, passwords);
    if passwords.len() > 0 {
        assert(m.len() > 0) by {
            if m.len() == 0 {
                assert(total_count(m) == 0);
            }
        }
        lemma_min_le_total(m);
    }
}

/// The bucket entries that two parallel columns of keys and counts hold.
pub open spec fn entries_view(keys: Seq<String>, counts: Seq<usize>) -> Seq<(Seq<char>, nat)> {
    Seq::new(keys.len(), |i: int| (keys[i]@, counts[i] as nat))
}

/// A mapping from truncated-hash key to the number of passwords that
/// produced it, in order of first appearance.
#[derive(Debug)]
pub struct BucketMap {
    keys: Vec<String>,
    counts: Vec<usize>,
}

impl View for BucketMap {
    type V = Seq<(Seq<char>, nat)>;

    closed spec fn view(&self) -> Seq<(Seq<char>, nat)> {
        entries_view(self.keys@, self.counts@)
    }
}

/// The first position of a key among the key column, if any.
fn find_index(keys: &Vec<String>, key: &String) -> (r: Option<usize>)
    ensures
        match r {
            Some(j) => j < keys@.len() && keys@[j as int]@ == key@ && forall|jj: int|
                0 <= jj < j ==> (#[trigger] keys@[jj])@ != key@,
            None => forall|jj: int| 0 <= jj < keys@.len() ==> (#[trigger] keys@[jj])@ != key@,
        },
{
    let mut j: usize = 0;
    while j < keys.len()
        invariant
            j <= keys@.len(),
            forall|jj: int| 0 <= jj < j ==> (#[trigger] keys@[jj])@ != key@,
        decreases keys@.len() - j,
    {
        if keys[j] == *key {
            return Some(j);
        }
        j = j + 1;
    }
    None
}

impl BucketMap {
    /// The two columns of the map line up.
    pub closed spec fn wf(&self) -> bool {
        self.keys@.len() == self.counts@.len()
    }

    /// The number of populated buckets.
    pub fn len(&self) -> (r: usize)
        ensures
            r == self@.len(),
    {
        self.keys.len()
    }

    /// The key of the bucket at one position.
    pub fn key_at(&self, i: usize) -> (r: String)
        requires
            i < self@.len(),
        ensures
            r@ == self@[i as int].0,
    {
        self.keys[i].clone()
    }

    /// The count of the bucket at one position.
    pub fn count_at(&self, i: usize) -> (r: usize)
        requires
            self.wf(),
            i < self@.len(),
        ensures
            r as nat == self@[i as int].1,
    {
        self.counts[i]
    }

    /// The count of a key's bucket, or `None` if the key has none.
    pub fn get(&self, key: &str) -> (r: Option<usize>)
        requires
            self.wf(),
        ensures
            match r {
                Some(c) => has_key(self@, key@) && c as nat == count_of(self@, key@),
                None => !has_key(self@, key@),
            },
    {
        let owned = String::from_str(key);
        match find_index(&self.keys, &owned) {
            Some(j) => {
                proof {
                    assert(self@[j as int].0 == key@);
                    assert(forall|jj: int|
                        0 <= jj < j ==> (#[trigger] self@[jj]).0 != key@);
                    lemma_find_key_at(self@, key@, j as int);
                }
                Some(self.counts[j])
            },
            None => {
                proof {
                    assert(forall|jj: int|
                        0 <= jj < self@.len() ==> (#[trigger] self@[jj]).0 != key@);
                    lemma_find_key_props(self@, key@);
                    if has_key(self@, key@) {
                        assert(self@[find_key(self@, key@)].0 == key@);
                    }
                }
                None
            },
        }
    }
}

/// Buckets a password collection by truncated hash under one algorithm and
/// one already-validated truncation length.
pub(crate) fn bucket_counts(
    digest: HashingDigest,
    first_bits: usize,
    passwords: &Vec<String>,
) -> (m: BucketMap)
    requires
        1 <= first_bits,
        first_bits as nat <= hex_len(digest),
    ensures
        m.wf(),
        m@ == spec_bucket(digest, first_bits as int, pwd_views(passwords@)),
        total_count(m@) == passwords@.len(),
        forall|i: int|
            0 <= i < m@.len() ==> (#[trigger] m@[i]).0.len() == first_bits && all_hex_chars(
                m@[i].0,
            ),
{
    let ghost pwds = pwd_views(passwords@);
    let mut keys: Vec<String> = Vec::new();
    let mut counts: Vec<usize> = Vec::new();
    let mut i: usize = 0;
    proof {
        assert(pwds.take(0) =~= Seq::<Seq<char>>::empty());
    }
    while i < passwords.len()
        invariant
            i <= passwords@.len(),
            pwds == pwd_views(passwords@),
            pwds.len() == passwords@.len(),
            keys@.len() == counts@.len(),
            entries_view(keys@, counts@) == spec_bucket(digest, first_bits as int, pwds.take(i as int)),
            total_count(entries_view(keys@, counts@)) == i,
            forall|t: int|
                0 <= t < keys@.len() ==> (#[trigger] keys@[t])@.len() == first_bits
                    && all_hex_chars(keys@[t]@),
            1 <= first_bits,
            first_bits as nat <= hex_len(digest),
        decreases passwords@.len() - i,
    {
        let ghost old_entries = entries_view(keys@, counts@);
        let p: &String = &passwords[i];
        let h = hash_password(digest, p.as_str());
        proof {
            lemma_hex_chars_ascii(h@);
        }
        let key_slice = h.as_str().substring_ascii(0, first_bits);
        let key = String::from_str(key_slice);
        let ghost k = key_of(digest, first_bits as int, pwds[i as int]);
        proof {
            assert(pwds[i as int] == p@);
            assert(key@ == k);
        }
        match find_index(&keys, &key) {
            Some(j) => {
                proof {
                    assert(old_entries[j as int].0 == k);
                    assert(forall|jj: int|
                        0 <= jj < j ==> (#[trigger] old_entries[jj]).0 != k);
                    lemma_find_key_at(old_entries, k, j as int);
                    lemma_count_le_total(old_entries, j as int);
                }
                let c = counts[j];
                counts.set(j, c + 1);
                proof {
                    assert(entries_view(keys@, counts@) =~= bump(old_entries, k));
                    lemma_total_count_bump(old_entries, k);
                }
            },
            None => {
                proof {
                    assert(forall|jj: int|
                        0 <= jj < old_entries.len() ==> (#[trigger] old_entries[jj]).0 != k);
                    lemma_find_key_props(old_entries, k);
                    if has_key(old_entries, k) {
                        assert(old_entries[find_key(old_entries, k)].0 == k);
                    }
                }
                keys.push(key);
                counts.push(1);
                proof {
                    assert(entries_view(keys@, counts@) =~= bump(old_entries, k));
                    lemma_total_count_bump(old_entries, k);
                }
            },
        }
        proof {
            assert(pwds.take(i + 1).drop_last() =~= pwds.take(i as int));
            assert(pwds.take(i + 1).last() == pwds[i as int]);
        }
        i = i + 1;
    }
    proof {
        assert(pwds.take(pwds.len() as int) =~= pwds);
    }
    BucketMap { keys, counts }
}

/// Buckets a password collection by truncated hash: each password's hex
/// digest is cut to `truncation_length` characters and counted under that
/// key. Rejects a zero truncation length, and one beyond the algorithm's
/// hex length.
pub fn bucket(
    digest: HashingDigest,
    truncation_length: usize,
    passwords: &Vec<String>,
) -> (r: Result<BucketMap, AnonymityError>)
    ensures
        truncation_length == 0 ==> r == Result::<BucketMap, AnonymityError>::Err(
            AnonymityError::InvalidTruncation,
        ),
        1 <= truncation_length && truncation_length as nat > hex_len(digest) ==> r == Result::<
            BucketMap,
            AnonymityError,
        >::Err(AnonymityError::TruncationOutOfRange),
        (1 <= truncation_length && truncation_length as nat <= hex_len(digest)) <==> r is Ok,
        r matches Ok(m) ==> m.wf() && m@ == spec_bucket(
            digest,
            truncation_length as int,
            pwd_views(passwords@),
        ) && total_count(m@) == passwords@.len() && (forall|i: int|
            0 <= i < m@.len() ==> (#[trigger] m@[i]).0.len() == truncation_length
                && all_hex_chars(m@[i].0)),
{
    if truncation_length == 0 {
        return Err(AnonymityError::InvalidTruncation);
    }
    if truncation_length > hex_length(digest) {
        return Err(AnonymityError::TruncationOutOfRange);
    }
    Ok(bucket_counts(digest, truncation_length, passwords))
}

/// The achieved k-anonymity: the minimum count across the map's buckets,
/// `0` for an empty map.
pub fn k_anonymity(records: &BucketMap) -> (r: usize)
    requires
        records.wf(),
    ensures
        r as nat == min_count(records@),
{
    if records.len() == 0 {
        return 0;
    }
    let mut cur = records.count_at(0);
    let mut j: usize = 1;
    proof {
        assert(records@.take(1).len() == 1);
        assert(records@.take(1)[0] == records@[0]);
    }
    while j < records.len()
        invariant
            records.wf(),
            1 <= j <= records@.len(),
            cur as nat == min_count(records@.take(j as int)),
        decreases records@.len() - j,
    {
        let c = records.count_at(j);
        proof {
            assert(records@.take(j + 1).drop_last() =~= records@.take(j as int));
            assert(records@.take(j + 1).last() == records@[j as int]);
            assert(records@.take(j + 1).len() == j + 1);
        }
        if c < cur {
            cur = c;
        }
        j = j + 1;
    }
    proof {
        assert(records@.take(records@.len() as int) =~= records@);
    }
    cur
}

/// A truncation length, wrapped so that one choice serves a family of
/// computations.
pub struct HashAnonymity {
    first_bits: usize,
}

impl HashAnonymity {
    /// The truncation length this value carries.
    pub closed spec fn spec_first_bits(&self) -> usize {
        self.first_bits
    }

    /// The truncation length this value carries.
    pub fn first_bits(&self) -> (r: usize)
        ensures
            r == self.spec_first_bits(),
    {
        self.first_bits
    }

    /// Wraps a truncation length.
    pub fn for_first_bits(first_bits: usize) -> (r: Self)
        ensures
            r.spec_first_bits() == first_bits,
    {
        HashAnonymity { first_bits }
    }

    /// Buckets a password collection under one algorithm and this
    /// truncation length.
    pub fn compute_for(&self, digest: HashingDigest, passwords: &Vec<String>) -> (m: BucketMap)
        requires
            1 <= self.spec_first_bits(),
            self.spec_first_bits() as nat <= hex_len(digest),
        ensures
            m.wf(),
            m@ == spec_bucket(digest, self.spec_first_bits() as int, pwd_views(passwords@)),
            total_count(m@) == passwords@.len(),
            forall|i: int|
                0 <= i < m@.len() ==> (#[trigger] m@[i]).0.len() == self.spec_first_bits()
                    && all_hex_chars(m@[i].0),
    {
        bucket_counts(digest, self.first_bits, passwords)
    }
}

impl HashingDigest {
    /// Buckets a password collection under this algorithm and the given
    /// truncation length.
    pub fn compute_on(&self, hash_anonymity: &HashAnonymity, passwords: &Vec<String>) -> (m:
        BucketMap)
        requires
            1 <= hash_anonymity.spec_first_bits(),
            hash_anonymity.spec_first_bits() as nat <= hex_len(*self),
        ensures
            m.wf(),
            m@ == spec_bucket(
                *self,
                hash_anonymity.spec_first_bits() as int,
                pwd_views(passwords@),
            ),
            total_count(m@) == passwords@.len(),
            forall|i: int|
                0 <= i < m@.len() ==> (#[trigger] m@[i]).0.len()
                    == hash_anonymity.spec_first_bits() && all_hex_chars(m@[i].0),
    {
        hash_anonymity.compute_for(*self, passwords)
    }
}

} // verus!
