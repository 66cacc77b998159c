//! ProgPoW hashing kernel: the KISS99 generator and FNV-1a combine, the
//! register-mixing loop over a cache and an external dataset, and the
//! truncated Keccak-f[800] permutation that derives the seed and the final
//! digest. Every function is stated against a mathematical model and proved.
pub mod basic_algorithm;
pub mod byte_order;
pub mod keccak;
pub mod progpow;
