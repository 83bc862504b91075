//! Multiplicative-to-additive share conversion for threshold ECDSA.
//!
//! Two parties holding secret scalars `a` and `b` exchange two messages and
//! end up with additive shares `alpha` and `beta` with
//! `alpha + beta == a * b` in the scalar field. The cryptographic
//! collaborators (the homomorphic cryptosystem, the curve, the range proofs
//! and the discrete-log proofs) are reached through the [`suite::Suite`]
//! trait, whose contracts model each of them mathematically.
pub mod laws;
pub mod mta;
pub mod small;
pub mod suite;
