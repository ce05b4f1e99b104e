//! Plot data generation: classification of expression results into plottable
//! kinds, grid sampling through a caller-supplied evaluator, batch compaction of
//! complex series, fan-out of multi-valued results into aligned lanes, and the
//! registry that keeps the classified plots and re-samples them on request.
//!
//! Floating-point numbers are carried as IEEE-754 binary64 bit patterns (`u64`):
//! the engine only ever asks whether a number is zero, finite, or missing, and
//! those questions are answered exactly on the bits.
pub mod value;
pub mod compact;
pub mod lanes;
pub mod kind;
pub mod draw;
pub mod sampler;
pub mod registry;
pub mod names;
pub mod text;
pub mod source;
pub mod par;
