//! The end-to-end ProgPoW computation.
pub mod progpow;
