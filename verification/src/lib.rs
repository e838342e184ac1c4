//! ECDSA signature verification on the P-256 and P-384 curves, and
//! constant-time comparison of byte strings.

pub mod bignum;
pub mod constant_time;
pub mod curve;
pub mod der;
pub mod digest;
pub mod ecdsa;
pub mod ops;
pub mod p256_ops;
pub mod p384_ops;
