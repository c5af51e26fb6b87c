//! Ternary values, Q16.16 fixed-point arithmetic and ternary observation
//! vectors, each function with a contract that fixes its result, and the
//! laws that hold between them.

pub mod fixed;
pub mod observation;
pub mod ternary;

pub use fixed::FixedPoint;
pub use observation::TernaryObservation;
pub use ternary::Ternary;
