//! The three post-quantum signature schemes: byte lengths, and verification of
//! detached signatures by the `pqcrypto` crates.
//!
//! The crates are built without their `avx2` and `neon` features, so that the
//! portable implementation answers on every machine.

use pqcrypto_dilithium::dilithium3;
use pqcrypto_falcon::falcon512;
use pqcrypto_sphincsplus::sphincssha2128ssimple;
use pqcrypto_traits::sign::DetachedSignature;
use pqcrypto_traits::sign::PublicKey;
use vstd::prelude::*;

verus! {

/// Length of an ML-DSA (Dilithium3) public key.
pub const MLDSA_PUBLIC_KEY_LEN: usize = 1952;

/// Length of an ML-DSA (Dilithium3) signature.
pub const MLDSA_SIGNATURE_LEN: usize = 3293;

/// Length of an FN-DSA (Falcon-512) public key.
pub const FNDSA_PUBLIC_KEY_LEN: usize = 897;

/// Greatest length of an FN-DSA (Falcon-512) signature.
pub const FNDSA_SIGNATURE_MAX_LEN: usize = 752;

/// Length of an SLH-DSA (SPHINCS+-SHA2-128s) public key.
pub const SLHDSA_PUBLIC_KEY_LEN: usize = 32;

/// Length of an SLH-DSA (SPHINCS+-SHA2-128s) signature.
pub const SLHDSA_SIGNATURE_LEN: usize = 7856;

/// Names the answer of the portable `dilithium3::verify_detached_signature` on a
/// signature, a message and a public key, each given by its bytes.
pub uninterp spec fn mldsa_accepts(sig: Seq<u8>, msg: Seq<u8>, pk: Seq<u8>) -> bool;

/// Names the answer of the portable `falcon512::verify_detached_signature` on a
/// signature, a message and a public key, each given by its bytes.
pub uninterp spec fn fndsa_accepts(sig: Seq<u8>, msg: Seq<u8>, pk: Seq<u8>) -> bool;

/// Names the answer of the portable
/// `sphincssha2128ssimple::verify_detached_signature` on a signature, a message and
/// a public key, each given by its bytes.
pub uninterp spec fn slhdsa_accepts(sig: Seq<u8>, msg: Seq<u8>, pk: Seq<u8>) -> bool;

/// An ML-DSA signature is good: both byte strings have a length that the scheme
/// can hold, and the scheme accepts the signature.
pub open spec fn mldsa_valid(sig: Seq<u8>, msg: Seq<u8>, pk: Seq<u8>) -> bool {
    &&& pk.len() == MLDSA_PUBLIC_KEY_LEN
    &&& sig.len() <= MLDSA_SIGNATURE_LEN
    &&& mldsa_accepts(sig, msg, pk)
}

/// An FN-DSA signature is good: both byte strings have a length that the scheme
/// can hold, and the scheme accepts the signature.
pub open spec fn fndsa_valid(sig: Seq<u8>, msg: Seq<u8>, pk: Seq<u8>) -> bool {
    &&& pk.len() == FNDSA_PUBLIC_KEY_LEN
    &&& sig.len() <= FNDSA_SIGNATURE_MAX_LEN
    &&& fndsa_accepts(sig, msg, pk)
}

/// An SLH-DSA signature is good: both byte strings have a length that the scheme
/// can hold, and the scheme accepts the signature.
pub open spec fn slhdsa_valid(sig: Seq<u8>, msg: Seq<u8>, pk: Seq<u8>) -> bool {
    &&& pk.len() == SLHDSA_PUBLIC_KEY_LEN
    &&& sig.len() <= SLHDSA_SIGNATURE_LEN
    &&& slhdsa_accepts(sig, msg, pk)
}

/// Calls `dilithium3::PublicKey::from_bytes`: it takes exactly the byte strings
/// of the scheme's key length.
#[verifier::external_body]
fn mldsa_key_parses(pk: &[u8]) -> (parses: bool)
    ensures
        parses == (pk@.len() == MLDSA_PUBLIC_KEY_LEN),
{
    <dilithium3::PublicKey as PublicKey>::from_bytes(pk).is_ok()
}

/// Calls `dilithium3::DetachedSignature::from_bytes`: it takes exactly the byte
/// strings that are no longer than the scheme's signatures.
#[verifier::external_body]
fn mldsa_signature_parses(sig: &[u8]) -> (parses: bool)
    ensures
        parses == (sig@.len() <= MLDSA_SIGNATURE_LEN),
{
    <dilithium3::DetachedSignature as DetachedSignature>::from_bytes(sig).is_ok()
}

/// Calls `dilithium3::verify_detached_signature` on byte strings that parse. With one
/// implementation built in, its answer depends on the three byte strings alone.
#[verifier::external_body]
fn mldsa_check(sig: &[u8], msg: &[u8], pk: &[u8]) -> (accepts: bool)
    requires
        pk@.len() == MLDSA_PUBLIC_KEY_LEN,
        sig@.len() <= MLDSA_SIGNATURE_LEN,
    ensures
        accepts == mldsa_accepts(sig@, msg@, pk@),
{
    let pk = <dilithium3::PublicKey as PublicKey>::from_bytes(pk).unwrap();
    let sig = <dilithium3::DetachedSignature as DetachedSignature>::from_bytes(sig).unwrap();
    dilithium3::verify_detached_signature(&sig, msg, &pk).is_ok()
}

/// Verifies an ML-DSA signature; bytes that do not parse make it invalid.
pub fn verify_mldsa(sig_bytes: &[u8], msg: &[u8], pk_bytes: &[u8]) -> (valid: bool)
    ensures
        valid == mldsa_valid(sig_bytes@, msg@, pk_bytes@),
        valid == (pk_bytes@.len() == 1952 && sig_bytes@.len() <= 3293 && mldsa_accepts(
            sig_bytes@,
            msg@,
            pk_bytes@,
        )),
{
    if !mldsa_key_parses(pk_bytes) {
        return false;
    }
    if !mldsa_signature_parses(sig_bytes) {
        return false;
    }
    mldsa_check(sig_bytes, msg, pk_bytes)
}

/// Calls `falcon512::PublicKey::from_bytes`: it takes exactly the byte strings
/// of the scheme's key length.
#[verifier::external_body]
fn fndsa_key_parses(pk: &[u8]) -> (parses: bool)
    ensures
        parses == (pk@.len() == FNDSA_PUBLIC_KEY_LEN),
{
    <falcon512::PublicKey as PublicKey>::from_bytes(pk).is_ok()
}

/// Calls `falcon512::DetachedSignature::from_bytes`: it takes exactly the byte
/// strings that are no longer than the scheme's longest signatures.
#[verifier::external_body]
fn fndsa_signature_parses(sig: &[u8]) -> (parses: bool)
    ensures
        parses == (sig@.len() <= FNDSA_SIGNATURE_MAX_LEN),
{
    <falcon512::DetachedSignature as DetachedSignature>::from_bytes(sig).is_ok()
}

/// Calls `falcon512::verify_detached_signature` on byte strings that parse. With one
/// implementation built in, its answer depends on the three byte strings alone.
#[verifier::external_body]
fn fndsa_check(sig: &[u8], msg: &[u8], pk: &[u8]) -> (accepts: bool)
    requires
        pk@.len() == FNDSA_PUBLIC_KEY_LEN,
        sig@.len() <= FNDSA_SIGNATURE_MAX_LEN,
    ensures
        accepts == fndsa_accepts(sig@, msg@, pk@),
{
    let pk = <falcon512::PublicKey as PublicKey>::from_bytes(pk).unwrap();
    let sig = <falcon512::DetachedSignature as DetachedSignature>::from_bytes(sig).unwrap();
    falcon512::verify_detached_signature(&sig, msg, &pk).is_ok()
}

/// Verifies an FN-DSA signature; bytes that do not parse make it invalid.
pub fn verify_fndsa(sig_bytes: &[u8], msg: &[u8], pk_bytes: &[u8]) -> (valid: bool)
    ensures
        valid == fndsa_valid(sig_bytes@, msg@, pk_bytes@),
        valid == (pk_bytes@.len() == 897 && sig_bytes@.len() <= 752 && fndsa_accepts(
            sig_bytes@,
            msg@,
            pk_bytes@,
        )),
{
    if !fndsa_key_parses(pk_bytes) {
        return false;
    }
    if !fndsa_signature_parses(sig_bytes) {
        return false;
    }
    fndsa_check(sig_bytes, msg, pk_bytes)
}

/// Calls `sphincssha2128ssimple::PublicKey::from_bytes`: it takes exactly the
/// byte strings of the scheme's key length.
#[verifier::external_body]
fn slhdsa_key_parses(pk: &[u8]) -> (parses: bool)
    ensures
        parses == (pk@.len() == SLHDSA_PUBLIC_KEY_LEN),
{
    <sphincssha2128ssimple::PublicKey as PublicKey>::from_bytes(pk).is_ok()
}

/// Calls `sphincssha2128ssimple::DetachedSignature::from_bytes`: it takes exactly
/// the byte strings that are no longer than the scheme's signatures.
#[verifier::external_body]
fn slhdsa_signature_parses(sig: &[u8]) -> (parses: bool)
    ensures
        parses == (sig@.len() <= SLHDSA_SIGNATURE_LEN),
{
    <sphincssha2128ssimple::DetachedSignature as DetachedSignature>::from_bytes(sig).is_ok()
}

/// Calls `sphincssha2128ssimple::verify_detached_signature` on byte strings that
/// parse. With one implementation built in, its answer depends on the three byte
/// strings alone.
#[verifier::external_body]
fn slhdsa_check(sig: &[u8], msg: &[u8], pk: &[u8]) -> (accepts: bool)
    requires
        pk@.len() == SLHDSA_PUBLIC_KEY_LEN,
        sig@.len() <= SLHDSA_SIGNATURE_LEN,
    ensures
        accepts == slhdsa_accepts(sig@, msg@, pk@),
{
    let pk = <sphincssha2128ssimple::PublicKey as PublicKey>::from_bytes(pk).unwrap();
    let sig = <sphincssha2128ssimple::DetachedSignature as DetachedSignature>::from_bytes(
        sig,
    ).unwrap();
    sphincssha2128ssimple::verify_detached_signature(&sig, msg, &pk).is_ok()
}

/// Verifies an SLH-DSA signature; bytes that do not parse make it invalid.
pub fn verify_slhdsa(sig_bytes: &[u8], msg: &[u8], pk_bytes: &[u8]) -> (valid: bool)
    ensures
        valid == slhdsa_valid(sig_bytes@, msg@, pk_bytes@),
        valid == (pk_bytes@.len() == 32 && sig_bytes@.len() <= 7856 && slhdsa_accepts(
            sig_bytes@,
            msg@,
            pk_bytes@,
        )),
{
    if !slhdsa_key_parses(pk_bytes) {
        return false;
    }
    if !slhdsa_signature_parses(sig_bytes) {
        return false;
    }
    slhdsa_check(sig_bytes, msg, pk_bytes)
}

} // verus!
