use password_privacy::BucketMap;
use password_privacy::HashingDigest;
use password_privacy::bucket;
use password_privacy::k_anonymity;

fn owned(passwords: &[&str]) -> Vec<String> {
    passwords.iter().map(|p| p.to_string()).collect()
}

fn same_map(a: &BucketMap, b: &BucketMap) -> bool {
    if a.len() != b.len() {
        return false;
    }
    for i in 0..a.len() {
        let key = a.key_at(i);
        if a.get(&key) != b.get(&key) {
            return false;
        }
    }
    true
}

#[test]
fn bucketing_twice_yields_identical_maps() {
    let passwords = owned(&["one", "two", "two", "three", ""]);
    for alg in [HashingDigest::SHA1, HashingDigest::MD2, HashingDigest::FSB160] {
        let first = bucket(alg, 3, &passwords).unwrap();
        let second = bucket(alg, 3, &passwords).unwrap();
        assert!(same_map(&first, &second));
        assert_eq!(k_anonymity(&first), k_anonymity(&second));
    }
}

#[test]
fn bucket_counts_sum_to_password_count() {
    let passwords = owned(&["a", "b", "c", "a", "b", "a", "longer password", ""]);
    let map = bucket(HashingDigest::SHA256, 1, &passwords).unwrap();
    let mut sum = 0;
    for i in 0..map.len() {
        sum += map.count_at(i);
    }
    assert_eq!(sum, passwords.len());
}

#[test]
fn k_anonymity_never_exceeds_collection_size() {
    let passwords = owned(&["p1", "p2", "p3", "p1"]);
    for n in [1, 2, 8] {
        let map = bucket(HashingDigest::SHA512, n, &passwords).unwrap();
        let k = k_anonymity(&map);
        assert!(k >= 1);
        assert!(k <= passwords.len());
    }
    let none: Vec<String> = Vec::new();
    let empty = bucket(HashingDigest::SHA512, 2, &none).unwrap();
    assert_eq!(k_anonymity(&empty), 0);
}

#[test]
fn keys_are_hex_prefixes_of_the_requested_length() {
    let passwords = owned(&["red", "green", "blue", "red"]);
    for n in [1, 2, 5, 32] {
        let map = bucket(HashingDigest::MD2, n, &passwords).unwrap();
        for i in 0..map.len() {
            let key = map.key_at(i);
            assert_eq!(key.len(), n);
            assert!(key
                .chars()
                .all(|c| c.is_ascii_digit() || ('a'..='f').contains(&c)));
        }
    }
}
