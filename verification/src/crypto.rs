//! Hashes, signatures, derived addresses and text, computed by outside crates
//! and by the standard library.
use crate::address::Address;
use ed25519_dalek::Signer;
use sha2::Digest;
use vstd::prelude::*;
use vstd::string::StringSliceAdditionalSpecFns;
use vstd::utf8::valid_utf8;

verus! {

/// The errors of `brine_ed25519::sig_verify`, carried through unread.
#[verifier::external_type_specification]
#[verifier::external_body]
pub struct ExSignatureError(brine_ed25519::SignatureError);

/// Whether `brine_ed25519::sig_verify` accepts a signature.
pub uninterp spec fn signature_valid(pubkey: Seq<u8>, signature: Seq<u8>, message: Seq<u8>) -> bool;

/// `brine_ed25519::sig_verify`: accepts or refuses as a function of the key,
/// the signature and the message, and accepts only keys of 32 bytes and
/// signatures of 64.
pub assume_specification[ brine_ed25519::sig_verify ](
    pubkey: &[u8],
    sig: &[u8],
    message: &[u8],
) -> (r: Result<(), brine_ed25519::SignatureError>)
    ensures
        r is Ok <==> signature_valid(pubkey@, sig@, message@),
        r is Ok ==> pubkey@.len() == 32 && sig@.len() == 64,
;

/// The SHA-256 digest that `sha2::Sha256` computes.
pub uninterp spec fn sha256_digest(data: Seq<u8>) -> Seq<u8>;

/// `sha2::Sha256`: the digest of the data, 32 bytes that depend on the data
/// alone.
#[verifier::external_body]
pub(crate) fn sha256(data: &[u8]) -> (digest: [u8; 32])
    ensures
        digest@ == sha256_digest(data@),
{
    let mut hasher = sha2::Sha256::new();
    hasher.update(data);
    hasher.finalize().into()
}

/// The signature that `ed25519_dalek::SigningKey::sign` makes.
pub uninterp spec fn ed25519_signature(seed: Seq<u8>, message: Seq<u8>) -> Seq<u8>;

/// `ed25519_dalek::SigningKey::sign`: the signature of the key with the given
/// seed over a message, 64 bytes that depend on the two alone. That a verifier
/// accepts it is not claimed.
#[verifier::external_body]
pub(crate) fn sign(seed: &[u8; 32], message: &[u8]) -> (signature: [u8; 64])
    ensures
        signature@ == ed25519_signature(seed@, message@),
{
    ed25519_dalek::SigningKey::from_bytes(seed).sign(message).to_bytes()
}

/// The public key that `ed25519_dalek::SigningKey::verifying_key` gives.
pub uninterp spec fn ed25519_public_key(seed: Seq<u8>) -> Seq<u8>;

/// `ed25519_dalek::SigningKey::verifying_key`: the public key of the key with
/// the given seed, 32 bytes that depend on the seed alone.
#[verifier::external_body]
pub(crate) fn public_key(seed: &[u8; 32]) -> (key: [u8; 32])
    ensures
        key@ == ed25519_public_key(seed@),
{
    ed25519_dalek::SigningKey::from_bytes(seed).verifying_key().to_bytes()
}

/// The address and bump that `solana_pubkey::Pubkey::try_find_program_address`
/// derives from seeds for a program.
pub uninterp spec fn derived_address(seeds: Seq<Seq<u8>>, program: Seq<u8>) -> Option<
    (Seq<u8>, u8),
>;

/// The bytes of each seed.
pub open spec fn seed_bytes(seeds: Seq<Vec<u8>>) -> Seq<Seq<u8>> {
    seeds.map_values(|s: Vec<u8>| s@)
}

/// `solana_pubkey::Pubkey::try_find_program_address`: an address and a bump
/// that depend on the seeds and the program alone, or nothing. There is none
/// for sixteen seeds or more.
#[verifier::external_body]
pub(crate) fn find_program_address(seeds: &Vec<Vec<u8>>, program: &Address) -> (r: Option<
    (Address, u8),
>)
    ensures
        match r {
            Some((address, bump)) => derived_address(seed_bytes(seeds@), program@) == Some(
                (address@, bump),
            ),
            None => derived_address(seed_bytes(seeds@), program@) is None,
        },
        seeds@.len() >= 16 ==> r is None,
{
    let refs: Vec<&[u8]> = seeds.iter().map(|s| s.as_slice()).collect();
    let program = solana_pubkey::Pubkey::new_from_array(program.bytes);
    match solana_pubkey::Pubkey::try_find_program_address(&refs, &program) {
        Some((address, bump)) => Some((Address { bytes: address.to_bytes() }, bump)),
        None => None,
    }
}

/// `core::str::from_utf8`: a text with the given bytes, where they are valid
/// UTF-8, and only there.
#[verifier::external_body]
pub(crate) fn utf8_text(bytes: &[u8]) -> (text: Option<&str>)
    ensures
        text is Some <==> valid_utf8(bytes@),
        text is Some ==> text->0.spec_bytes() == bytes@,
{
    core::str::from_utf8(bytes).ok()
}

} // verus!
