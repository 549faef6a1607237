//! The wallet's seed, and the phrase that it is kept as.

use std::str::FromStr;
use vstd::prelude::*;

use crate::cashu_wallet::error::{Failure, WalletError};
use crate::text::text_view;

verus! {

/// The seed that a mnemonic phrase and a passphrase give, or what is wrong with the phrase.
pub uninterp spec fn mnemonic_seed(phrase: Seq<char>, passphrase: Seq<char>) -> Result<
    Seq<u8>,
    Seq<char>,
>;

/// The mnemonic phrase of 32 bytes of entropy.
pub uninterp spec fn mnemonic_phrase(entropy: Seq<u8>) -> Seq<char>;

/// `bip39::Mnemonic::from_str` and `to_seed_normalized`: the seed is a function of the phrase and
/// the passphrase, and so is what the error says, which tells a wrong number of words, an unknown
/// word and a wrong checksum apart.
#[verifier::external_body]
fn phrase_to_seed(phrase: &str, passphrase: &str) -> (r: Result<[u8; 64], String>)
    ensures
        mnemonic_seed(phrase@, passphrase@) == (match r {
            Ok(seed) => Ok::<Seq<u8>, Seq<char>>(seed@),
            Err(reason) => Err(reason@),
        }),
{
    match bip39::Mnemonic::from_str(phrase) {
        Ok(mnemonic) => Ok(mnemonic.to_seed_normalized(passphrase)),
        Err(error) => Err(error.to_string()),
    }
}

/// `bip39::Mnemonic::from_entropy`, which does not fail on 32 bytes, and the phrase that it writes:
/// a function of the entropy, and one that is read as a phrase again.
#[verifier::external_body]
fn entropy_to_phrase(entropy: &[u8; 32]) -> (r: String)
    ensures
        r@ == mnemonic_phrase(entropy@),
        forall|passphrase: Seq<char>| (#[trigger] mnemonic_seed(r@, passphrase)) is Ok,
{
    bip39::Mnemonic::from_entropy(entropy).unwrap().to_string()
}

/// `bip39::rand::thread_rng` and `gen`: 32 random bytes. Nothing is claimed of them.
#[verifier::external_body]
fn random_entropy() -> [u8; 32] {
    bip39::rand::Rng::gen(&mut bip39::rand::thread_rng())
}

/// The phrase for the given entropy. It is one that `read_seed` reads.
pub fn phrase_for(entropy: [u8; 32]) -> (r: String)
    ensures
        r@ == mnemonic_phrase(entropy@),
        mnemonic_seed(r@, ""@) is Ok,
{
    entropy_to_phrase(&entropy)
}

/// The seed that a phrase stands for; there is no passphrase.
pub fn read_seed(phrase: &str) -> (r: Result<[u8; 64], WalletError>)
    ensures
        match mnemonic_seed(phrase@, ""@) {
            Ok(seed) => r matches Ok(s) && s@ == seed,
            Err(reason) => r matches Err(e) && e@ == (Failure::InvalidSeedPhrase { reason }),
        },
{
    match phrase_to_seed(phrase, "") {
        Ok(seed) => Ok(seed),
        Err(reason) => Err(WalletError::InvalidSeedPhrase { reason }),
    }
}

/// A wallet's seed, and the phrase that is still to be written down for it.
pub struct Unlocked {
    pub seed: [u8; 64],
    pub to_write: Option<String>,
}

/// The seed of a wallet whose phrase was written down as `stored`, or of a new one with the given
/// entropy. What is to be written down for a new wallet is read as the same seed later.
pub fn unlock_with(stored: Option<&str>, entropy: [u8; 32]) -> (r: Result<Unlocked, WalletError>)
    ensures
        match stored {
            Some(phrase) => match mnemonic_seed(phrase@, ""@) {
                Ok(seed) => r matches Ok(u) && u.seed@ == seed && u.to_write is None,
                Err(reason) => r matches Err(e) && e@ == (Failure::InvalidSeedPhrase { reason }),
            },
            None => r matches Ok(u) && text_view(u.to_write) == Some(mnemonic_phrase(entropy@))
                && mnemonic_seed(mnemonic_phrase(entropy@), ""@) == Ok::<Seq<u8>, Seq<char>>(u.seed@),
        },
{
    match stored {
        Some(phrase) => match read_seed(phrase) {
            Ok(seed) => Ok(Unlocked { seed, to_write: None }),
            Err(error) => Err(error),
        },
        None => {
            let phrase: String = phrase_for(entropy);
            match read_seed(phrase.as_str()) {
                Ok(seed) => Ok(Unlocked { seed, to_write: Some(phrase) }),
                Err(error) => Err(error),
            }
        },
    }
}

/// The seed of a wallet whose phrase was written down as `stored`, or of a new one. What is to be
/// written down for a new wallet is read as the same seed later.
pub fn unlock(stored: Option<&str>) -> (r: Result<Unlocked, WalletError>)
    ensures
        match stored {
            Some(phrase) => match mnemonic_seed(phrase@, ""@) {
                Ok(seed) => r matches Ok(u) && u.seed@ == seed && u.to_write is None,
                Err(reason) => r matches Err(e) && e@ == (Failure::InvalidSeedPhrase { reason }),
            },
            None => r matches Ok(u) && u.to_write matches Some(phrase) && mnemonic_seed(
                phrase@,
                ""@,
            ) == Ok::<Seq<u8>, Seq<char>>(u.seed@) && exists|entropy: Seq<u8>|
                entropy.len() == 32 && phrase@ == #[trigger] mnemonic_phrase(entropy),
        },
{
    let entropy: [u8; 32] = random_entropy();
    assert(entropy@.len() == 32);
    unlock_with(stored, entropy)
}

} // verus!
