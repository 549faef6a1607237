//! The cryptographic functions that the library calls, each with the name that stands for its
//! result in contracts. Nothing here is proved: every contract repeats what the called crate
//! documents or what its source shows.

use aes_gcm::aead::{Aead, AeadCore, KeyInit, OsRng};
use ed25519_dalek::Signer;
use sha2::Digest;
use vstd::prelude::*;

use crate::bytes::{all_bytes, hex_lower};

verus! {

/// The error that the AEAD crates return. It carries no information.
#[verifier::external_type_specification]
#[verifier::external_body]
pub struct ExAeadError(chacha20poly1305::Error);

/// Bytes that an AEAD adds to a plaintext.
pub const TAG_LENGTH: usize = 16;

/// The longest plaintext that `chacha20poly1305` seals: its 32-bit block counter starts at one and
/// stops one short of the top.
pub const CHACHA_MAX_PLAINTEXT: u64 = 274_877_906_816;

/// The longest plaintext that `aes_gcm` seals.
pub const AES_MAX_PLAINTEXT: u64 = 68_719_476_736;

/// Plaintext lengths on which `chacha20poly1305` returns. On the 63 lengths in between its length
/// check passes and its block counter then runs out, which panics.
pub open spec fn chacha_returns(len: int) -> bool {
    len <= CHACHA_MAX_PLAINTEXT || len >= CHACHA_MAX_PLAINTEXT + 64
}

/// Of all lengths only the 63 above the longest that can be sealed are left out.
pub proof fn few_lengths_are_left_out(len: int)
    ensures
        chacha_returns(len) <==> !(274_877_906_816 < len < 274_877_906_880),
{
}

/// Whether `chacha20poly1305` returns on a plaintext of `len` bytes, or on a sealed message of
/// `len` bytes where `sealed` is set.
pub fn chacha_takes(len: usize, sealed: bool) -> (r: bool)
    ensures
        r == chacha_returns(
            if sealed {
                len - TAG_LENGTH
            } else {
                len as int
            },
        ),
{
    let tag: u128 = if sealed {
        16
    } else {
        0
    };
    let wide: u128 = len as u128;
    let most: u128 = CHACHA_MAX_PLAINTEXT as u128 + tag;
    wide <= most || wide >= most + 64
}

/// The X25519 public key of a 32-byte secret.
pub uninterp spec fn x25519_public(secret: Seq<u8>) -> Seq<u8>;

/// The X25519 shared secret of a 32-byte secret and a 32-byte public key.
pub uninterp spec fn x25519_shared(secret: Seq<u8>, public: Seq<u8>) -> Seq<u8>;

/// The SHA-256 digest of a byte string.
pub uninterp spec fn sha256_digest(data: Seq<u8>) -> Seq<u8>;

/// The first `len` bytes that HKDF-SHA256 gives for a salt, key material and context.
pub uninterp spec fn hkdf_sha256_okm(
    salt: Seq<u8>,
    ikm: Seq<u8>,
    info: Seq<u8>,
    len: nat,
) -> Seq<u8>;

/// What ChaCha20-Poly1305 makes of a plaintext, with no associated data: ciphertext, then tag.
pub uninterp spec fn chacha_sealed(key: Seq<u8>, nonce: Seq<u8>, plaintext: Seq<u8>) -> Seq<u8>;

/// What ChaCha20-Poly1305 finds in a sealed message, `None` where it refuses it.
pub uninterp spec fn chacha_opened(
    key: Seq<u8>,
    nonce: Seq<u8>,
    ciphertext: Seq<u8>,
) -> Option<Seq<u8>>;

/// What AES-256-GCM makes of a plaintext, with no associated data: ciphertext, then tag.
pub uninterp spec fn aes_sealed(key: Seq<u8>, nonce: Seq<u8>, plaintext: Seq<u8>) -> Seq<u8>;

/// What AES-256-GCM finds in a sealed message, `None` where it refuses it.
pub uninterp spec fn aes_opened(
    key: Seq<u8>,
    nonce: Seq<u8>,
    ciphertext: Seq<u8>,
) -> Option<Seq<u8>>;

/// The Ed25519 public key of a 32-byte seed.
pub uninterp spec fn ed25519_public(seed: Seq<u8>) -> Seq<u8>;

/// The Ed25519 signature that a 32-byte seed gives a message.
pub uninterp spec fn ed25519_signature(seed: Seq<u8>, message: Seq<u8>) -> Seq<u8>;

/// Whether 32 bytes are the encoding of an Ed25519 point.
pub uninterp spec fn ed25519_decodes(key: Seq<u8>) -> bool;

/// The encoding of the identity of the Ed25519 group.
pub open spec fn ed25519_identity() -> Seq<u8> {
    Seq::new(
        32,
        |i: int|
            if i == 0 {
                1u8
            } else {
                0u8
            },
    )
}

/// The identity is encoded as the number one: 32 bytes, the lowest first.
pub proof fn the_identity_is_encoded_as_one(i: int)
    ensures
        ed25519_identity().len() == 32,
        ed25519_identity()[0] == 1,
        0 < i < 32 ==> ed25519_identity()[i] == 0,
{
}

/// The verdict of strict Ed25519 verification; `false` where the key bytes decode to no point.
pub uninterp spec fn ed25519_accepts(key: Seq<u8>, message: Seq<u8>, signature: Seq<u8>) -> bool;

/// The 32 bytes that PBKDF2-HMAC-SHA256 gives for a password, a salt and a number of rounds.
pub uninterp spec fn pbkdf2_key(password: Seq<u8>, salt: Seq<u8>, rounds: u32) -> Seq<u8>;

/// `x25519_dalek::StaticSecret::random`: 32 bytes from the operating system. Nothing is claimed of
/// them.
#[verifier::external_body]
pub(crate) fn random_secret() -> [u8; 32] {
    x25519_dalek::StaticSecret::random().to_bytes()
}

/// `x25519_dalek::StaticSecret::random_from_rng` with the operating system's generator. Nothing is
/// claimed of the bytes.
#[verifier::external_body]
pub(crate) fn random_secret_from_rng() -> [u8; 32] {
    x25519_dalek::StaticSecret::random_from_rng(OsRng).to_bytes()
}

/// `ed25519_dalek::SigningKey::generate` with the operating system's generator: the seed of the new
/// key. Nothing is claimed of the bytes.
#[verifier::external_body]
pub(crate) fn random_signing_seed() -> [u8; 32] {
    ed25519_dalek::SigningKey::generate(&mut OsRng).to_bytes()
}

/// `aes_gcm::Aes256Gcm::generate_nonce` with the operating system's generator. Nothing is claimed
/// of the bytes.
#[verifier::external_body]
pub(crate) fn random_nonce() -> [u8; 12] {
    aes_gcm::Aes256Gcm::generate_nonce(&mut OsRng).into()
}

/// `x25519_dalek::PublicKey::from` on a secret: the public key is a function of the secret. The
/// clamped secret is no multiple of the base point's order, so that the key is not zero; and it is
/// encoded in lowest terms, so that its top bit is clear.
#[verifier::external_body]
pub(crate) fn x25519_public_key(secret: &[u8; 32]) -> (r: [u8; 32])
    ensures
        r@ == x25519_public(secret@),
        !all_bytes(r@, 0x00) && !all_bytes(r@, 0xFF),
{
    x25519_dalek::PublicKey::from(&x25519_dalek::StaticSecret::from(*secret)).to_bytes()
}

/// `x25519_dalek::StaticSecret::diffie_hellman`: the shared secret is a function of the two keys,
/// and it is the one that the holder of the public key's secret computes from our public key.
#[verifier::external_body]
pub(crate) fn x25519_diffie_hellman(secret: &[u8; 32], public: &[u8; 32]) -> (r: [u8; 32])
    ensures
        r@ == x25519_shared(secret@, public@),
        forall|other: Seq<u8>|
            other.len() == 32 && #[trigger] x25519_public(other) == public@ ==> r@
                == x25519_shared(other, x25519_public(secret@)),
{
    x25519_dalek::StaticSecret::from(*secret).diffie_hellman(
        &x25519_dalek::PublicKey::from(*public),
    ).to_bytes()
}

/// `sha2::Sha256::digest`: the digest is a function of the data.
#[verifier::external_body]
pub(crate) fn sha256(data: &[u8]) -> (r: [u8; 32])
    ensures
        r@ == sha256_digest(data@),
{
    sha2::Sha256::digest(data).into()
}

/// `hkdf::Hkdf::<Sha256>::new` and `expand`: `len` bytes that are a function of salt, key material
/// and context. `expand` refuses more than 255 digests' worth of output.
#[verifier::external_body]
pub(crate) fn hkdf_sha256(salt: &[u8], ikm: &[u8], info: &[u8], len: usize) -> (r: Vec<u8>)
    requires
        len <= 8160,
    ensures
        r@ == hkdf_sha256_okm(salt@, ikm@, info@, len as nat),
        r@.len() == len,
{
    let mut okm = vec![0u8; len];
    hkdf::Hkdf::<sha2::Sha256>::new(Some(salt), ikm).expand(info, &mut okm).unwrap();
    okm
}

/// `chacha20poly1305::ChaCha20Poly1305::encrypt` with no associated data: it fails exactly on
/// plaintexts that are too long, and else gives a function of key, nonce and plaintext that is a
/// tag longer than the plaintext.
#[verifier::external_body]
pub(crate) fn chacha_seal(key: &[u8; 32], nonce: &[u8; 12], plaintext: &[u8]) -> (r: Result<
    Vec<u8>,
    chacha20poly1305::Error,
>)
    requires
        chacha_returns(plaintext@.len() as int),
    ensures
        r is Ok <==> plaintext@.len() <= CHACHA_MAX_PLAINTEXT,
        r matches Ok(c) ==> c@ == chacha_sealed(key@, nonce@, plaintext@) && c@.len()
            == plaintext@.len() + TAG_LENGTH,
{
    chacha20poly1305::ChaCha20Poly1305::new(key.into()).encrypt(nonce.into(), plaintext)
}

/// `chacha20poly1305::ChaCha20Poly1305::decrypt` with no associated data: the outcome is a function
/// of key, nonce and ciphertext. A message is opened exactly when it is the sealing of some
/// plaintext, and what comes out is that plaintext.
#[verifier::external_body]
pub(crate) fn chacha_open(key: &[u8; 32], nonce: &[u8; 12], ciphertext: &[u8]) -> (r: Result<
    Vec<u8>,
    chacha20poly1305::Error,
>)
    requires
        chacha_returns(ciphertext@.len() - TAG_LENGTH),
    ensures
        r matches Ok(p) ==> chacha_opened(key@, nonce@, ciphertext@) == Some(p@),
        r is Err ==> chacha_opened(key@, nonce@, ciphertext@) is None,
        r matches Ok(p) ==> ciphertext@ == chacha_sealed(key@, nonce@, p@) && ciphertext@.len()
            == p@.len() + TAG_LENGTH && p@.len() <= CHACHA_MAX_PLAINTEXT,
        forall|p: Seq<u8>|
            p.len() <= CHACHA_MAX_PLAINTEXT && ciphertext@ == #[trigger] chacha_sealed(
                key@,
                nonce@,
                p,
            ) ==> r is Ok && r->Ok_0@ == p,
{
    chacha20poly1305::ChaCha20Poly1305::new(key.into()).decrypt(nonce.into(), ciphertext)
}

/// `aes_gcm::Aes256Gcm::encrypt` with no associated data: it fails exactly on plaintexts that are
/// too long, and else gives a function of key, nonce and plaintext that is a tag longer than the
/// plaintext.
#[verifier::external_body]
pub(crate) fn aes_seal(key: &[u8; 32], nonce: &[u8; 12], plaintext: &[u8]) -> (r: Result<
    Vec<u8>,
    chacha20poly1305::Error,
>)
    ensures
        r is Ok <==> plaintext@.len() <= AES_MAX_PLAINTEXT,
        r matches Ok(c) ==> c@ == aes_sealed(key@, nonce@, plaintext@) && c@.len()
            == plaintext@.len() + TAG_LENGTH,
{
    aes_gcm::Aes256Gcm::new(key.into()).encrypt(nonce.into(), plaintext)
}

/// `aes_gcm::Aes256Gcm::decrypt` with no associated data: the outcome is a function of key, nonce
/// and ciphertext. A sealed plaintext is opened to itself; conversely what is opened, unless it is
/// longer than any plaintext that can be sealed, seals back to the message.
#[verifier::external_body]
pub(crate) fn aes_open(key: &[u8; 32], nonce: &[u8; 12], ciphertext: &[u8]) -> (r: Result<
    Vec<u8>,
    chacha20poly1305::Error,
>)
    ensures
        r matches Ok(p) ==> aes_opened(key@, nonce@, ciphertext@) == Some(p@),
        r is Err ==> aes_opened(key@, nonce@, ciphertext@) is None,
        r matches Ok(p) ==> ciphertext@.len() == p@.len() + TAG_LENGTH && (p@.len()
            <= AES_MAX_PLAINTEXT ==> ciphertext@ == aes_sealed(key@, nonce@, p@)),
        forall|p: Seq<u8>|
            p.len() <= AES_MAX_PLAINTEXT && ciphertext@ == #[trigger] aes_sealed(key@, nonce@, p)
                ==> r is Ok && r->Ok_0@ == p,
{
    aes_gcm::Aes256Gcm::new(key.into()).decrypt(nonce.into(), ciphertext)
}

/// `ed25519_dalek::SigningKey::verifying_key`: the public key is a function of the seed, and it
/// decodes.
#[verifier::external_body]
pub(crate) fn ed25519_public_key(seed: &[u8; 32]) -> (r: [u8; 32])
    ensures
        r@ == ed25519_public(seed@),
        ed25519_decodes(r@),
{
    ed25519_dalek::SigningKey::from_bytes(seed).verifying_key().to_bytes()
}

/// `ed25519_dalek::SigningKey::sign`: the signature is a function of seed and message.
#[verifier::external_body]
pub(crate) fn ed25519_sign(seed: &[u8; 32], message: &[u8]) -> (r: [u8; 64])
    ensures
        r@ == ed25519_signature(seed@, message@),
{
    ed25519_dalek::SigningKey::from_bytes(seed).sign(message).to_bytes()
}

/// `ed25519_dalek::VerifyingKey::from_bytes`: whether it accepts the bytes, which it then keeps
/// unchanged as the key's encoding.
#[verifier::external_body]
pub(crate) fn ed25519_key_decodes(key: &[u8; 32]) -> (r: bool)
    ensures
        r == ed25519_decodes(key@),
{
    ed25519_dalek::VerifyingKey::from_bytes(key).is_ok()
}

/// `ed25519_dalek::VerifyingKey::verify_strict` under the key that `key` encodes: the verdict is a
/// function of key, message and signature. What `SigningKey::sign` made is accepted under the
/// signer's key, which is never of small order, unless the point that the signature begins with is
/// the identity: points of small order are refused.
#[verifier::external_body]
pub(crate) fn ed25519_verify_strict(key: &[u8; 32], message: &[u8], signature: &[u8; 64]) -> (r:
    bool)
    ensures
        r == ed25519_accepts(key@, message@, signature@),
        r ==> ed25519_decodes(key@),
        forall|seed: Seq<u8>|
            seed.len() == 32 && #[trigger] ed25519_public(seed) == key@ && signature@
                == ed25519_signature(seed, message@) && signature@.subrange(0, 32)
                != ed25519_identity() ==> r,
{
    match ed25519_dalek::VerifyingKey::from_bytes(key) {
        Ok(k) => k.verify_strict(
            message,
            &ed25519_dalek::Signature::from_bytes(signature),
        ).is_ok(),
        Err(_) => false,
    }
}

/// `pbkdf2::pbkdf2_hmac::<Sha256>` with a 32-byte output: the key is a function of password, salt
/// and number of rounds.
#[verifier::external_body]
pub(crate) fn pbkdf2_hmac_sha256(password: &[u8], salt: &[u8], rounds: u32) -> (r: [u8; 32])
    ensures
        r@ == pbkdf2_key(password@, salt@, rounds),
{
    let mut key = [0u8; 32];
    pbkdf2::pbkdf2_hmac::<sha2::Sha256>(password, salt, rounds, &mut key);
    key
}

/// `hex::encode`: two lower-case hexadecimal digits for each byte.
#[verifier::external_body]
pub(crate) fn hex_encode(data: &[u8]) -> (r: String)
    ensures
        r@ == hex_lower(data@),
{
    hex::encode(data)
}

} // verus!
