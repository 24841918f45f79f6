//! Interpolation formulas over exact rational scalars and two-dimensional
//! vectors: linear interpolation, non-uniform cubic Hermite (Catmull-Rom)
//! splines and their derivatives, and quadratic/cubic Bezier derivatives.
//!
//! Every scalar is an exact rational (`rational::Rat`), so the closed-form
//! interpolation formulas are computed without rounding. Arithmetic is
//! checked: an operation whose 128-bit intermediate values would overflow
//! returns `None` instead of a wrong value, and the contracts state exactly
//! when that happens.

pub mod bezier;
pub mod hermite;
pub mod interpolate;
pub mod quaternion;
pub mod rational;
pub mod vector;
