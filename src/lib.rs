//! Feldman verifiable secret sharing over the BLS12-381 scalar field and its
//! G1 group: splitting a secret polynomial into shares, publishing
//! coefficient commitments, and checking a share against them.

pub mod error;
pub mod limbs;
pub mod field;
pub mod group;
pub mod vss;
