use password_privacy::AnonymityError;
use password_privacy::HashAnonymity;
use password_privacy::HashingDigest;
use password_privacy::avg_k_anonymity;
use password_privacy::best_digest;
use password_privacy::compare_and_find_best_digest;
use password_privacy::list_algorithms;
use password_privacy::sweep_lengths;

fn owned(passwords: &[&str]) -> Vec<String> {
    passwords.iter().map(|p| p.to_string()).collect()
}

#[test]
fn comparison_covers_the_registry_in_order() {
    let passwords = owned(&["a", "b", "a"]);
    let anonymity = HashAnonymity::for_first_bits(1);
    let perfs = compare_and_find_best_digest(&anonymity, &passwords).unwrap();
    let algs = list_algorithms();
    assert_eq!(perfs.len(), algs.len());
    for (i, (alg, k)) in perfs.iter().enumerate() {
        assert_eq!(*alg, algs[i]);
        assert!(*k <= passwords.len());
    }
}

#[test]
fn comparison_rejects_bad_truncations() {
    let passwords = owned(&["a"]);
    let zero = HashAnonymity::for_first_bits(0);
    assert!(matches!(
        compare_and_find_best_digest(&zero, &passwords),
        Err(AnonymityError::InvalidTruncation)
    ));
    // 33 characters exceed MD2's 32-character hex digest.
    let wide = HashAnonymity::for_first_bits(33);
    assert!(matches!(
        compare_and_find_best_digest(&wide, &passwords),
        Err(AnonymityError::TruncationOutOfRange)
    ));
    // 32 characters fit every algorithm of the registry.
    let widest = HashAnonymity::for_first_bits(32);
    assert!(compare_and_find_best_digest(&widest, &passwords).is_ok());
}

#[test]
fn ties_go_to_the_first_algorithm_in_registry_order() {
    // With no passwords every algorithm achieves k-anonymity 0.
    let none: Vec<String> = Vec::new();
    let (alg, k) = best_digest(4, &none).unwrap();
    assert_eq!(alg, HashingDigest::SHA1);
    assert_eq!(k, 0);

    // A single password gives every algorithm one bucket of count 1.
    let one = owned(&["only"]);
    let (alg, k) = best_digest(1, &one).unwrap();
    assert_eq!(alg, HashingDigest::SHA1);
    assert_eq!(k, 1);
}

#[test]
fn best_digest_achieves_the_maximum() {
    let passwords = owned(&["aa", "bb", "cc", "aa", "dd", "bb"]);
    let anonymity = HashAnonymity::for_first_bits(1);
    let perfs = compare_and_find_best_digest(&anonymity, &passwords).unwrap();
    let (best, k) = best_digest(1, &passwords).unwrap();
    assert!(perfs.iter().all(|&(_, other)| other <= k));
    let first_max = perfs.iter().find(|&&(_, other)| other == k).unwrap();
    assert_eq!(first_max.0, best);
}

#[test]
fn sweep_pairs_each_length_with_its_anonymity() {
    let passwords = owned(&["x", "y", "x", "z"]);
    let sweep = sweep_lengths(HashingDigest::SHA1, &passwords, 6).unwrap();
    assert_eq!(sweep.len(), 6);
    for (i, &(length, k)) in sweep.iter().enumerate() {
        assert_eq!(length, i + 1);
        assert!(k <= passwords.len());
    }
    let empty = sweep_lengths(HashingDigest::SHA1, &passwords, 0).unwrap();
    assert!(empty.is_empty());
    assert!(matches!(
        sweep_lengths(HashingDigest::MD2, &passwords, 33),
        Err(AnonymityError::TruncationOutOfRange)
    ));
}

#[test]
fn average_weights_each_anonymity_by_its_position() {
    // Positions 0, 1, 2 qualify: (0*5 + 1*4 + 2*3) / (0 + 1 + 2) = 10 / 3.
    assert_eq!(avg_k_anonymity(&vec![5, 4, 3, 1, 7]), 3);
    // (0*2 + 1*2) / (0 + 1) = 2.
    assert_eq!(avg_k_anonymity(&vec![2, 2]), 2);
}

#[test]
fn average_is_guarded_when_no_position_qualifies() {
    // The leading value already fails the `> 1` cut: nothing qualifies.
    assert_eq!(avg_k_anonymity(&vec![1, 5, 5]), 0);
    // Only position 0 qualifies, so the weights sum to zero.
    assert_eq!(avg_k_anonymity(&vec![9, 1, 1]), 0);
    assert_eq!(avg_k_anonymity(&Vec::new()), 0);
}
