//! Minting logic of a candy machine whose item index is drawn from
//! off-chain randomness: the container parameters exchanged with the
//! randomness function, the draw itself, the selection and swap-removal of
//! config lines, and the checks and metadata steps of a mint.

pub mod keys;
pub mod text;
pub mod le;
pub mod strings;
pub mod params;
pub mod randomness;
pub mod state;
pub mod config_line;
pub mod metadata;
pub mod mint;
pub mod request;
pub mod accounts;
