pub mod bytes;
pub mod cashu_wallet;
pub mod clock;
pub mod encryption;
pub mod noise_encryption;
pub mod primitives;
pub mod table;
pub mod terminal_ux;
pub mod text;
