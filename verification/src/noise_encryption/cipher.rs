//! The ciphers that a completed handshake leaves behind, one for each direction.

use vstd::bytes::{
    lemma_auto_spec_u64_to_from_le_bytes, spec_u64_from_le_bytes, spec_u64_to_le_bytes,
    u64_to_le_bytes,
};
use vstd::prelude::*;

use crate::bytes::{append_bytes, array_12};
use crate::noise_encryption::handshake::{bytes_view, NoiseError};
use crate::primitives::{
    chacha_open, chacha_opened, chacha_returns, chacha_seal, chacha_sealed, CHACHA_MAX_PLAINTEXT,
};

verus! {

/// A cipher and the number of messages that went through it, as a mathematical value.
pub struct Cipher {
    pub key: Seq<u8>,
    pub nonce: u64,
}

/// The cipher of one direction after the handshake.
#[derive(Debug)]
pub struct NoiseCipherState {
    key: [u8; 32],
    nonce: u64,
}

impl View for NoiseCipherState {
    type V = Cipher;

    closed spec fn view(&self) -> Cipher {
        Cipher { key: self.key@, nonce: self.nonce }
    }
}

/// The nonce of the message number `n`: four zero bytes, then the number in little-endian order.
pub open spec fn message_nonce(n: u64) -> Seq<u8> {
    seq![0u8, 0, 0, 0] + spec_u64_to_le_bytes(n)
}

/// The cipher after one more message.
pub open spec fn next_message(c: Cipher) -> Cipher {
    Cipher { nonce: (c.nonce + 1) as u64, ..c }
}

/// What a cipher makes of a plaintext, and its state afterwards.
pub open spec fn cipher_seal(c: Cipher, plaintext: Seq<u8>) -> (
    Result<Seq<u8>, NoiseError>,
    Cipher,
) {
    if plaintext.len() <= CHACHA_MAX_PLAINTEXT {
        (Ok(chacha_sealed(c.key, message_nonce(c.nonce), plaintext)), next_message(c))
    } else {
        (Err(NoiseError::EncryptionFailed), c)
    }
}

/// What a cipher finds in a message, and its state afterwards. A message that is refused leaves
/// the cipher as it was.
pub open spec fn cipher_open(c: Cipher, ciphertext: Seq<u8>) -> (
    Result<Seq<u8>, NoiseError>,
    Cipher,
) {
    match chacha_opened(c.key, message_nonce(c.nonce), ciphertext) {
        Some(p) => (Ok(p), next_message(c)),
        None => (Err(NoiseError::DecryptionFailed), c),
    }
}

/// No two message numbers share a nonce.
pub proof fn message_nonces_differ(a: u64, b: u64)
    requires
        a != b,
    ensures
        message_nonce(a) != message_nonce(b),
{
    lemma_auto_spec_u64_to_from_le_bytes();
    if message_nonce(a) == message_nonce(b) {
        assert(spec_u64_to_le_bytes(a) =~= message_nonce(a).subrange(4, 12));
        assert(spec_u64_to_le_bytes(b) =~= message_nonce(b).subrange(4, 12));
        assert(spec_u64_from_le_bytes(spec_u64_to_le_bytes(a)) == a);
        assert(spec_u64_from_le_bytes(spec_u64_to_le_bytes(b)) == b);
    }
}

/// A cipher keeps its key, and counts each message that goes through it and no other. So no nonce
/// is used for two messages.
pub proof fn ciphers_count_messages(c: Cipher, plaintext: Seq<u8>, ciphertext: Seq<u8>)
    requires
        c.nonce < u64::MAX,
    ensures
        cipher_seal(c, plaintext).1.key == c.key,
        cipher_open(c, ciphertext).1.key == c.key,
        cipher_seal(c, plaintext).1.nonce == c.nonce + (if cipher_seal(c, plaintext).0 is Ok {
            1int
        } else {
            0int
        }),
        cipher_open(c, ciphertext).1.nonce == c.nonce + (if cipher_open(c, ciphertext).0 is Ok {
            1int
        } else {
            0int
        }),
        cipher_seal(c, plaintext).0 is Ok ==> message_nonce(cipher_seal(c, plaintext).1.nonce)
            != message_nonce(c.nonce),
{
    message_nonces_differ((c.nonce + 1) as u64, c.nonce);
}

impl NoiseCipherState {
    /// A cipher that no message went through yet.
    pub fn new(key: [u8; 32]) -> (r: Self)
        ensures
            r@ == (Cipher { key: key@, nonce: 0 }),
    {
        NoiseCipherState { key, nonce: 0 }
    }

    fn nonce_bytes(&self) -> (r: [u8; 12])
        ensures
            r@ == message_nonce(self@.nonce),
    {
        proof {
            lemma_auto_spec_u64_to_from_le_bytes();
        }
        let mut bytes: Vec<u8> = vec![0u8, 0u8, 0u8, 0u8];
        let counter: Vec<u8> = u64_to_le_bytes(self.nonce);
        append_bytes(&mut bytes, &counter);
        assert(bytes@ =~= message_nonce(self@.nonce));
        array_12(&bytes)
    }

    /// Whether the counter leaves room for one more message.
    pub fn has_room(&self) -> (r: bool)
        ensures
            r == (self@.nonce < u64::MAX),
    {
        self.nonce < u64::MAX
    }

    /// Encrypts the next message.
    pub fn encrypt(&mut self, plaintext: &[u8]) -> (r: Result<Vec<u8>, NoiseError>)
        requires
            old(self)@.nonce < u64::MAX,
            chacha_returns(plaintext@.len() as int),
        ensures
            (bytes_view(r), final(self)@) == cipher_seal(old(self)@, plaintext@),
            r matches Ok(c) ==> c@.len() == plaintext@.len() + 16,
    {
        let nonce: [u8; 12] = self.nonce_bytes();
        match chacha_seal(&self.key, &nonce, plaintext) {
            Ok(ciphertext) => {
                self.nonce = self.nonce + 1;
                Ok(ciphertext)
            },
            Err(_) => Err(NoiseError::EncryptionFailed),
        }
    }

    /// Decrypts the next message. What the other end's cipher sealed under the same key and number
    /// comes out as it went in, and both ciphers stay alike; nothing else is accepted.
    pub fn decrypt(&mut self, ciphertext: &[u8]) -> (r: Result<Vec<u8>, NoiseError>)
        requires
            old(self)@.nonce < u64::MAX,
            chacha_returns(ciphertext@.len() - 16),
        ensures
            (bytes_view(r), final(self)@) == cipher_open(old(self)@, ciphertext@),
            forall|p: Seq<u8>|
                (#[trigger] cipher_seal(old(self)@, p)).0 == Ok::<Seq<u8>, NoiseError>(ciphertext@)
                    ==> bytes_view(r) == Ok::<Seq<u8>, NoiseError>(p) && final(self)@
                    == cipher_seal(old(self)@, p).1,
            r matches Ok(p) ==> cipher_seal(old(self)@, p@).0 == Ok::<Seq<u8>, NoiseError>(
                ciphertext@,
            ),
            forall|p: Seq<u8>|
                p.len() <= CHACHA_MAX_PLAINTEXT && ciphertext@ == #[trigger] chacha_sealed(
                    old(self)@.key,
                    message_nonce(old(self)@.nonce),
                    p,
                ) ==> bytes_view(r) == Ok::<Seq<u8>, NoiseError>(p),
    {
        let nonce: [u8; 12] = self.nonce_bytes();
        match chacha_open(&self.key, &nonce, ciphertext) {
            Ok(plaintext) => {
                self.nonce = self.nonce + 1;
                Ok(plaintext)
            },
            Err(_) => Err(NoiseError::DecryptionFailed),
        }
    }
}

} // verus!
