//! Encryption between peers: key exchange, the Noise sessions and what is used where there is
//! none, signatures and channel keys.

pub mod laws;
pub mod model;
pub mod service;

pub use model::{EncryptionError, EncryptionType};
pub use service::EncryptionService;
