//! Integers modulo a modulus fixed in the type.
pub mod laws;
pub mod modint;
pub mod ops;
pub mod residue;
pub mod text;

pub use modint::ModInt;
