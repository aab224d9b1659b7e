//! The digest registry: a closed set of hash algorithms, each turning a
//! password into a lowercase hex string.
//!
//! The digests themselves come from their reference implementations; what
//! each returns is a function of the password alone and is given a name
//! here (`sha1_digest_bytes` and its peers). The hex rendering and every
//! caller-visible fact — digest length, hex alphabet — are verified.

use vstd::prelude::*;

use crate::hex_str::all_hex_chars;
use crate::hex_str::hex_encoding;
use crate::hex_str::to_hex;

verus! {

/// The closed set of digest algorithms, in registry order.
#[derive(Clone, Copy, Debug, PartialEq, Eq, Structural)]
#[allow(non_camel_case_types)]
pub enum HashingDigest {
    SHA1,
    SHA256,
    SHA512,
    SHA3_256,
    SHA3_512,
    BLAKE2S256,
    BLAKE2B512,
    FSB160,
    FSB256,
    FSB512,
    MD2,
    WHIRLPOOL,
}

pub uninterp spec fn sha1_digest_bytes(password: Seq<char>) -> Seq<u8>;

pub uninterp spec fn sha256_digest_bytes(password: Seq<char>) -> Seq<u8>;

pub uninterp spec fn sha512_digest_bytes(password: Seq<char>) -> Seq<u8>;

pub uninterp spec fn sha3_256_digest_bytes(password: Seq<char>) -> Seq<u8>;

pub uninterp spec fn sha3_512_digest_bytes(password: Seq<char>) -> Seq<u8>;

pub uninterp spec fn blake2s256_digest_bytes(password: Seq<char>) -> Seq<u8>;

pub uninterp spec fn blake2b512_digest_bytes(password: Seq<char>) -> Seq<u8>;

pub uninterp spec fn fsb160_digest_bytes(password: Seq<char>) -> Seq<u8>;

pub uninterp spec fn fsb256_digest_bytes(password: Seq<char>) -> Seq<u8>;

pub uninterp spec fn fsb512_digest_bytes(password: Seq<char>) -> Seq<u8>;

pub uninterp spec fn md2_digest_bytes(password: Seq<char>) -> Seq<u8>;

pub uninterp spec fn whirlpool_digest_bytes(password: Seq<char>) -> Seq<u8>;

/// Relies on `sha1::Sha1` through `digest::Digest::digest`: the 20-byte
/// SHA-1 digest of the password's bytes, a function of the password alone.
#[verifier::external_body]
fn sha1_digest(password: &str) -> (r: Vec<u8>)
    ensures
        r@ == sha1_digest_bytes(password@),
        r@.len() == 20,
{
    <sha1::Sha1 as sha1::Digest>::digest(password.as_bytes()).as_slice().to_vec()
}

/// Relies on `sha2::Sha256` through `digest::Digest::digest`: the 32-byte
/// SHA-256 digest of the password's bytes, a function of the password alone.
#[verifier::external_body]
fn sha256_digest(password: &str) -> (r: Vec<u8>)
    ensures
        r@ == sha256_digest_bytes(password@),
        r@.len() == 32,
{
    <sha2::Sha256 as sha2::Digest>::digest(password.as_bytes()).as_slice().to_vec()
}

/// Relies on `sha2::Sha512` through `digest::Digest::digest`: the 64-byte
/// SHA-512 digest of the password's bytes, a function of the password alone.
#[verifier::external_body]
fn sha512_digest(password: &str) -> (r: Vec<u8>)
    ensures
        r@ == sha512_digest_bytes(password@),
        r@.len() == 64,
{
    <sha2::Sha512 as sha2::Digest>::digest(password.as_bytes()).as_slice().to_vec()
}

/// Relies on `sha3::Sha3_256` through `digest::Digest::digest`: the 32-byte
/// SHA3-256 digest of the password's bytes, a function of the password alone.
#[verifier::external_body]
fn sha3_256_digest(password: &str) -> (r: Vec<u8>)
    ensures
        r@ == sha3_256_digest_bytes(password@),
        r@.len() == 32,
{
    <sha3::Sha3_256 as sha3::Digest>::digest(password.as_bytes()).as_slice().to_vec()
}

/// Relies on `sha3::Sha3_512` through `digest::Digest::digest`: the 64-byte
/// SHA3-512 digest of the password's bytes, a function of the password alone.
#[verifier::external_body]
fn sha3_512_digest(password: &str) -> (r: Vec<u8>)
    ensures
        r@ == sha3_512_digest_bytes(password@),
        r@.len() == 64,
{
    <sha3::Sha3_512 as sha3::Digest>::digest(password.as_bytes()).as_slice().to_vec()
}

/// Relies on `blake2::Blake2s256` through `digest::Digest::digest`: the
/// 32-byte BLAKE2s-256 digest of the password's bytes, a function of the
/// password alone.
#[verifier::external_body]
fn blake2s256_digest(password: &str) -> (r: Vec<u8>)
    ensures
        r@ == blake2s256_digest_bytes(password@),
        r@.len() == 32,
{
    <blake2::Blake2s256 as blake2::Digest>::digest(password.as_bytes()).as_slice().to_vec()
}

/// Relies on `blake2::Blake2b512` through `digest::Digest::digest`: the
/// 64-byte BLAKE2b-512 digest of the password's bytes, a function of the
/// password alone.
#[verifier::external_body]
fn blake2b512_digest(password: &str) -> (r: Vec<u8>)
    ensures
        r@ == blake2b512_digest_bytes(password@),
        r@.len() == 64,
{
    <blake2::Blake2b512 as blake2::Digest>::digest(password.as_bytes()).as_slice().to_vec()
}

/// Relies on `fsb::Fsb160` through `digest::Digest::digest`: the 20-byte
/// FSB-160 digest of the password's bytes, a function of the password alone.
#[verifier::external_body]
fn fsb160_digest(password: &str) -> (r: Vec<u8>)
    ensures
        r@ == fsb160_digest_bytes(password@),
        r@.len() == 20,
{
    <fsb::Fsb160 as fsb::Digest>::digest(password.as_bytes()).as_slice().to_vec()
}

/// Relies on `fsb::Fsb256` through `digest::Digest::digest`: the 32-byte
/// FSB-256 digest of the password's bytes, a function of the password alone.
#[verifier::external_body]
fn fsb256_digest(password: &str) -> (r: Vec<u8>)
    ensures
        r@ == fsb256_digest_bytes(password@),
        r@.len() == 32,
{
    <fsb::Fsb256 as fsb::Digest>::digest(password.as_bytes()).as_slice().to_vec()
}

/// Relies on `fsb::Fsb512` through `digest::Digest::digest`: the 64-byte
/// FSB-512 digest of the password's bytes, a function of the password alone.
#[verifier::external_body]
fn fsb512_digest(password: &str) -> (r: Vec<u8>)
    ensures
        r@ == fsb512_digest_bytes(password@),
        r@.len() == 64,
{
    <fsb::Fsb512 as fsb::Digest>::digest(password.as_bytes()).as_slice().to_vec()
}

/// Relies on `md2::Md2` through `digest::Digest::digest`: the 16-byte MD2
/// digest of the password's bytes, a function of the password alone.
#[verifier::external_body]
fn md2_digest(password: &str) -> (r: Vec<u8>)
    ensures
        r@ == md2_digest_bytes(password@),
        r@.len() == 16,
{
    <md2::Md2 as md2::Digest>::digest(password.as_bytes()).as_slice().to_vec()
}

/// Relies on `whirlpool::Whirlpool` through `digest::Digest::digest`: the
/// 64-byte Whirlpool digest of the password's bytes, a function of the
/// password alone.
#[verifier::external_body]
fn whirlpool_digest(password: &str) -> (r: Vec<u8>)
    ensures
        r@ == whirlpool_digest_bytes(password@),
        r@.len() == 64,
{
    <whirlpool::Whirlpool as whirlpool::Digest>::digest(password.as_bytes()).as_slice().to_vec()
}

/// The raw digest bytes of one password under one algorithm.
pub open spec fn digest_bytes_of(digest: HashingDigest, password: Seq<char>) -> Seq<u8> {
    match digest {
        HashingDigest::SHA1 => sha1_digest_bytes(password),
        HashingDigest::SHA256 => sha256_digest_bytes(password),
        HashingDigest::SHA512 => sha512_digest_bytes(password),
        HashingDigest::SHA3_256 => sha3_256_digest_bytes(password),
        HashingDigest::SHA3_512 => sha3_512_digest_bytes(password),
        HashingDigest::BLAKE2S256 => blake2s256_digest_bytes(password),
        HashingDigest::BLAKE2B512 => blake2b512_digest_bytes(password),
        HashingDigest::FSB160 => fsb160_digest_bytes(password),
        HashingDigest::FSB256 => fsb256_digest_bytes(password),
        HashingDigest::FSB512 => fsb512_digest_bytes(password),
        HashingDigest::MD2 => md2_digest_bytes(password),
        HashingDigest::WHIRLPOOL => whirlpool_digest_bytes(password),
    }
}

/// The digest size of an algorithm in bytes.
pub open spec fn digest_byte_len(digest: HashingDigest) -> nat {
    match digest {
        HashingDigest::SHA1 => 20,
        HashingDigest::SHA256 => 32,
        HashingDigest::SHA512 => 64,
        HashingDigest::SHA3_256 => 32,
        HashingDigest::SHA3_512 => 64,
        HashingDigest::BLAKE2S256 => 32,
        HashingDigest::BLAKE2B512 => 64,
        HashingDigest::FSB160 => 20,
        HashingDigest::FSB256 => 32,
        HashingDigest::FSB512 => 64,
        HashingDigest::MD2 => 16,
        HashingDigest::WHIRLPOOL => 64,
    }
}

/// The length of an algorithm's hex-encoded digest, in hex characters.
pub open spec fn hex_len(digest: HashingDigest) -> nat {
    2 * digest_byte_len(digest)
}

/// The lowercase hex string that hashing one password produces.
pub open spec fn spec_hash(digest: HashingDigest, password: Seq<char>) -> Seq<char> {
    hex_encoding(digest_bytes_of(digest, password))
}

/// Computes the digest of a password and returns its lowercase hex form.
pub fn hash_password(digest: HashingDigest, password: &str) -> (r: String)
    ensures
        r@ == spec_hash(digest, password@),
        r@.len() == hex_len(digest),
        all_hex_chars(r@),
{
    let bytes = match digest {
        HashingDigest::SHA1 => sha1_digest(password),
        HashingDigest::SHA256 => sha256_digest(password),
        HashingDigest::SHA512 => sha512_digest(password),
        HashingDigest::SHA3_256 => sha3_256_digest(password),
        HashingDigest::SHA3_512 => sha3_512_digest(password),
        HashingDigest::BLAKE2S256 => blake2s256_digest(password),
        HashingDigest::BLAKE2B512 => blake2b512_digest(password),
        HashingDigest::FSB160 => fsb160_digest(password),
        HashingDigest::FSB256 => fsb256_digest(password),
        HashingDigest::FSB512 => fsb512_digest(password),
        HashingDigest::MD2 => md2_digest(password),
        HashingDigest::WHIRLPOOL => whirlpool_digest(password),
    };
    to_hex(&bytes)
}

/// The length of an algorithm's hex-encoded digest, in hex characters.
pub fn hex_length(digest: HashingDigest) -> (r: usize)
    ensures
        r == hex_len(digest),
{
    match digest {
        HashingDigest::SHA1 => 40,
        HashingDigest::SHA256 => 64,
        HashingDigest::SHA512 => 128,
        HashingDigest::SHA3_256 => 64,
        HashingDigest::SHA3_512 => 128,
        HashingDigest::BLAKE2S256 => 64,
        HashingDigest::BLAKE2B512 => 128,
        HashingDigest::FSB160 => 40,
        HashingDigest::FSB256 => 64,
        HashingDigest::FSB512 => 128,
        HashingDigest::MD2 => 32,
        HashingDigest::WHIRLPOOL => 128,
    }
}

/// All algorithms of the registry, in their fixed, stable order.
pub open spec fn registry() -> Seq<HashingDigest> {
    seq![
        HashingDigest::SHA1,
        HashingDigest::SHA256,
        HashingDigest::SHA512,
        HashingDigest::SHA3_256,
        HashingDigest::SHA3_512,
        HashingDigest::BLAKE2S256,
        HashingDigest::BLAKE2B512,
        HashingDigest::FSB160,
        HashingDigest::FSB256,
        HashingDigest::FSB512,
        HashingDigest::MD2,
        HashingDigest::WHIRLPOOL,
    ]
}

/// Returns all supported algorithms in registry order.
pub fn list_algorithms() -> (r: Vec<HashingDigest>)
    ensures
        r@ == registry(),
{
    let mut r: Vec<HashingDigest> = Vec::new();
    r.push(HashingDigest::SHA1);
    r.push(HashingDigest::SHA256);
    r.push(HashingDigest::SHA512);
    r.push(HashingDigest::SHA3_256);
    r.push(HashingDigest::SHA3_512);
    r.push(HashingDigest::BLAKE2S256);
    r.push(HashingDigest::BLAKE2B512);
    r.push(HashingDigest::FSB160);
    r.push(HashingDigest::FSB256);
    r.push(HashingDigest::FSB512);
    r.push(HashingDigest::MD2);
    r.push(HashingDigest::WHIRLPOOL);
    proof {
        assert(r@ =~= registry());
    }
    r
}

/// The stable identifier of an algorithm, as used in flags and reports.
pub open spec fn spec_name(digest: HashingDigest) -> Seq<char> {
    match digest {
        HashingDigest::SHA1 => "SHA1"@,
        HashingDigest::SHA256 => "SHA256"@,
        HashingDigest::SHA512 => "SHA512"@,
        HashingDigest::SHA3_256 => "SHA3_256"@,
        HashingDigest::SHA3_512 => "SHA3_512"@,
        HashingDigest::BLAKE2S256 => "BLAKE2S256"@,
        HashingDigest::BLAKE2B512 => "BLAKE2B512"@,
        HashingDigest::FSB160 => "FSB160"@,
        HashingDigest::FSB256 => "FSB256"@,
        HashingDigest::FSB512 => "FSB512"@,
        HashingDigest::MD2 => "MD2"@,
        HashingDigest::WHIRLPOOL => "WHIRLPOOL"@,
    }
}

impl HashingDigest {
    /// The stable identifier of this algorithm, as used in flags and reports.
    pub fn name(&self) -> (r: String)
        ensures
            r@ == spec_name(*self),
    {
        match self {
            HashingDigest::SHA1 => String::from_str("SHA1"),
            HashingDigest::SHA256 => String::from_str("SHA256"),
            HashingDigest::SHA512 => String::from_str("SHA512"),
            HashingDigest::SHA3_256 => String::from_str("SHA3_256"),
            HashingDigest::SHA3_512 => String::from_str("SHA3_512"),
            HashingDigest::BLAKE2S256 => String::from_str("BLAKE2S256"),
            HashingDigest::BLAKE2B512 => String::from_str("BLAKE2B512"),
            HashingDigest::FSB160 => String::from_str("FSB160"),
            HashingDigest::FSB256 => String::from_str("FSB256"),
            HashingDigest::FSB512 => String::from_str("FSB512"),
            HashingDigest::MD2 => String::from_str("MD2"),
            HashingDigest::WHIRLPOOL => String::from_str("WHIRLPOOL"),
        }
    }
}

} // verus!
