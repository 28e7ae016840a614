//! Image resampling with separable one-dimensional filters, in exact
//! arithmetic, and the small rules of a thumbnail service built on it.
//!
//! A [`raster::Raster`] is resized in two passes, columns first and rows
//! second. Each output sample is the weighted average of a window of source
//! samples; the weights come from a [`kernel::Kernel`]. Positions, distances
//! and weights are rationals over a common denominator, so nothing is rounded
//! before the final division, which rounds down.
//!
//! [`laws`] holds what is proved of the resampler for all inputs. The other
//! modules read thumbnail requests and configuration and name the statuses
//! the service answers with.

pub mod channel;
pub mod config;
pub mod decimal;
pub mod error;
pub mod kernel;
pub mod laws;
pub mod options;
pub mod raster;
pub mod resize;
pub mod sampler;
pub mod service;
pub mod window;
