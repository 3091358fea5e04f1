//! Splitscreen viewport tiling.
//!
//! A window of `W × H` physical pixels is divided into a grid of `rows × cols`
//! equal cells, one per camera. Cell sizes come from truncating integer
//! division, so the cells never overlap and never leave the window; when a
//! dimension is not divisible by its count, a strip narrower than the count is
//! left uncovered at the right or bottom edge.

pub mod config;
pub mod layout;
pub mod partition;
pub mod scene;
pub mod viewport;
