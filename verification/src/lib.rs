//! A fixed-point bitcrusher core.
//!
//! Every quantity is a signed Q15.16 number held in an `i32`: the raw value
//! `65536` stands for 1.0. The crate holds the crush parameter with its
//! linear smoothing, the per-sample quantiser, and the block loop that ties
//! the two together. The final saturating stage of the effect is a
//! transcendental function and is left to the caller, who applies it to the
//! levels this crate hands back.

pub mod crusher;
pub mod fixed;
pub mod param;
pub mod processor;
