//! HeavyHash proof-of-work core: matrix sampling, the heavy transform, the
//! two-stage cSHAKE256 pipeline and a nonce-search loop over one mining session.

pub mod error;
pub mod matrix;
pub mod pow;
pub mod session;
pub mod uint256;
pub mod xoshiro;

pub use error::PowError;
pub use matrix::{matrix_from_bytes, matrix_to_bytes, Matrix};
pub use pow::{build_header, compute_pow, heavy_hash_internal, heavy_mix_bytes};
pub use session::{Miner, MiningSession};
pub use uint256::{compare_u256, hash_to_u256_le};
pub use xoshiro::Xoshiro256PlusPlus;
