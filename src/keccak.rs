//! The Keccak-f[800] permutation and the two digests built on it.
pub mod f800long;
pub mod f800round;
pub mod f800short;
