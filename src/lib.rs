//! A range-check gadget for halo2 circuits: a witnessed value is proven to lie
//! in `[0, N)` either by a custom gate whose polynomial vanishes exactly on
//! `0..N`, or by a lookup into a table holding `0..N`.

pub mod poly;
pub mod table;
pub mod config;
pub mod expression;
