//! Noise sessions between peers.

pub mod agreement;
pub mod cipher;
pub mod handshake;
pub mod laws;
pub mod manager;
pub mod session;

pub use cipher::NoiseCipherState;
pub use handshake::{HandshakePattern, NoiseError, NoiseHandshakeState, NoiseRole};
pub use manager::NoiseSessionManager;
pub use session::NoiseSession;
