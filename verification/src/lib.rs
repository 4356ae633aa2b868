//! Search support for fast inverse-square-root magic constants.
//!
//! The approximation under study starts from a bit-level initial guess
//! (`bits`), refines it with one Newton-Raphson step, and is scored by its
//! worst-case relative error over a fixed sampling grid (`grid`).  The
//! surrounding simplex search runs under the termination policy modelled in
//! `policy`, and the winning subtractant is reported in hexadecimal (`hex`).
//!
//! Floating-point evaluation itself lives outside this crate; everything
//! here works on exact integer data: bit patterns, grid indices, iteration
//! counts and hexadecimal digits.

pub mod bits;
pub mod grid;
pub mod hex;
pub mod policy;
