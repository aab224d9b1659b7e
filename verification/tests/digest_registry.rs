use password_privacy::HashingDigest;
use password_privacy::hash_password;
use password_privacy::hex_length;
use password_privacy::list_algorithms;

fn is_lower_hex(s: &str) -> bool {
    s.chars().all(|c| c.is_ascii_digit() || ('a'..='f').contains(&c))
}

#[test]
fn sha1_known_vector() {
    assert_eq!(
        hash_password(HashingDigest::SHA1, "abc"),
        "a9993e364706816aba3e25717850c26c9cd0d89d"
    );
}

#[test]
fn sha256_known_vector() {
    assert_eq!(
        hash_password(HashingDigest::SHA256, "abc"),
        "ba7816bf8f01cfea414140de5dae2223b00361a396177a9cb410ff61f20015ad"
    );
}

#[test]
fn sha512_known_vector() {
    assert_eq!(
        hash_password(HashingDigest::SHA512, "abc"),
        "ddaf35a193617abacc417349ae20413112e6fa4e89a97ea20a9eeee64b55d39a\
         2192992a274fc1a836ba3c23a3feebbd454d4423643ce80e2a9ac94fa54ca49f"
    );
}

#[test]
fn sha3_256_known_vector() {
    assert_eq!(
        hash_password(HashingDigest::SHA3_256, "abc"),
        "3a985da74fe225b2045c172d6bd390bd855f086e3e9d525b46bfe24511431532"
    );
}

#[test]
fn sha3_512_known_vector() {
    assert_eq!(
        hash_password(HashingDigest::SHA3_512, "abc"),
        "b751850b1a57168a5693cd924b6b096e08f621827444f70d884f5d0240d2712e\
         10e116e9192af3c91a7ec57647e3934057340b4cf408d5a56592f8274eec53f0"
    );
}

#[test]
fn blake2s256_known_vector() {
    assert_eq!(
        hash_password(HashingDigest::BLAKE2S256, "abc"),
        "508c5e8c327c14e2e1a72ba34eeb452f37458b209ed63a294d999b4c86675982"
    );
}

#[test]
fn blake2b512_known_vector() {
    assert_eq!(
        hash_password(HashingDigest::BLAKE2B512, "abc"),
        "ba80a53f981c4d0d6a2797b69f12f6e94c212f14685ac4b74b12bb6fdbffa2d1\
         7d87c5392aab792dc252d5de4533cc9518d38aa8dbf1925ab92386edd4009923"
    );
}

#[test]
fn md2_known_vector() {
    assert_eq!(
        hash_password(HashingDigest::MD2, "abc"),
        "da853b0d3f88d99b30283a69e6ded6bb"
    );
}

#[test]
fn whirlpool_known_vector() {
    assert_eq!(
        hash_password(HashingDigest::WHIRLPOOL, "abc"),
        "4e2448a4c6f486bb16b6562c73b4020bf3043e3a731bce721ae1b303d97e6d4c\
         7181eebdb6c57e277d0e34957114cbd6c797fc9d95d8b582d225292076d4eef5"
    );
}

#[test]
fn fsb_digests_have_documented_shape() {
    for (alg, len) in [
        (HashingDigest::FSB160, 40),
        (HashingDigest::FSB256, 64),
        (HashingDigest::FSB512, 128),
    ] {
        let h = hash_password(alg, "abc");
        assert_eq!(h.len(), len);
        assert!(is_lower_hex(&h));
        assert_ne!(h, hash_password(alg, "abd"));
        assert_eq!(h, hash_password(alg, "abc"));
    }
}

#[test]
fn every_algorithm_hashes_deterministically_to_lower_hex() {
    for alg in list_algorithms() {
        let h = hash_password(alg, "hunter2");
        assert_eq!(h.len(), hex_length(alg));
        assert!(is_lower_hex(&h));
        assert_eq!(h, hash_password(alg, "hunter2"));
        assert_ne!(h, hash_password(alg, "hunter3"));
    }
}

#[test]
fn hex_lengths_match_digest_sizes() {
    assert_eq!(hex_length(HashingDigest::SHA1), 40);
    assert_eq!(hex_length(HashingDigest::SHA256), 64);
    assert_eq!(hex_length(HashingDigest::SHA512), 128);
    assert_eq!(hex_length(HashingDigest::SHA3_256), 64);
    assert_eq!(hex_length(HashingDigest::SHA3_512), 128);
    assert_eq!(hex_length(HashingDigest::BLAKE2S256), 64);
    assert_eq!(hex_length(HashingDigest::BLAKE2B512), 128);
    assert_eq!(hex_length(HashingDigest::FSB160), 40);
    assert_eq!(hex_length(HashingDigest::FSB256), 64);
    assert_eq!(hex_length(HashingDigest::FSB512), 128);
    assert_eq!(hex_length(HashingDigest::MD2), 32);
    assert_eq!(hex_length(HashingDigest::WHIRLPOOL), 128);
}

#[test]
fn registry_order_is_fixed() {
    let algs = list_algorithms();
    assert_eq!(algs.len(), 12);
    assert_eq!(algs[0], HashingDigest::SHA1);
    assert_eq!(algs[1], HashingDigest::SHA256);
    assert_eq!(algs[2], HashingDigest::SHA512);
    assert_eq!(algs[3], HashingDigest::SHA3_256);
    assert_eq!(algs[4], HashingDigest::SHA3_512);
    assert_eq!(algs[5], HashingDigest::BLAKE2S256);
    assert_eq!(algs[6], HashingDigest::BLAKE2B512);
    assert_eq!(algs[7], HashingDigest::FSB160);
    assert_eq!(algs[8], HashingDigest::FSB256);
    assert_eq!(algs[9], HashingDigest::FSB512);
    assert_eq!(algs[10], HashingDigest::MD2);
    assert_eq!(algs[11], HashingDigest::WHIRLPOOL);
}

#[test]
fn names_are_the_stable_identifiers() {
    let names: Vec<String> = list_algorithms().iter().map(|a| a.name()).collect();
    assert_eq!(
        names,
        vec![
            "SHA1",
            "SHA256",
            "SHA512",
            "SHA3_256",
            "SHA3_512",
            "BLAKE2S256",
            "BLAKE2B512",
            "FSB160",
            "FSB256",
            "FSB512",
            "MD2",
            "WHIRLPOOL",
        ]
    );
}
