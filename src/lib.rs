//! Delegation of elliptic-curve group operations across a host boundary.
//!
//! A guest offloads multi-scalar multiplication and batch normalization to a
//! host delegate, or computes them locally when allowed to. The library
//! identifies curve groups by their invariants, frames points with a fixed,
//! unchecked byte layout, holds the per-group delegate configuration, and
//! decides for each call whether it goes to the delegate, to the local
//! arithmetic, or fails.
pub mod curves;
pub mod codec;
pub mod boundary;
pub mod arith;
pub mod handler;
pub mod dispatch;
