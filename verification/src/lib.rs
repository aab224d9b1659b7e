//! Measures the k-anonymity that a password corpus retains when each
//! password is replaced by a truncated cryptographic hash.
//!
//! The digest registry ([`digest`]) offers a closed set of hash algorithms,
//! each turning a password into a lowercase hex string. The anonymity
//! engine ([`anonymity`]) buckets a password collection by the first
//! characters of those hex strings and reports the size of the smallest
//! bucket — the achieved k-anonymity. [`compare`] evaluates the engine
//! across algorithms and truncation lengths.
//!
//! A note on naming: the truncation parameter is called `first_bits`
//! throughout, but it counts leading hex characters, not bits — each hex
//! character carries four bits. The behaviour, not the name, is what the
//! contracts state.

pub mod anonymity;
pub mod compare;
pub mod digest;
pub mod hex_str;

pub use anonymity::AnonymityError;
pub use anonymity::BucketMap;
pub use anonymity::HashAnonymity;
pub use anonymity::bucket;
pub use anonymity::k_anonymity;
pub use compare::avg_k_anonymity;
pub use compare::best_digest;
pub use compare::compare_and_find_best_digest;
pub use compare::sweep_lengths;
pub use digest::HashingDigest;
pub use digest::hash_password;
pub use digest::hex_length;
pub use digest::list_algorithms;
