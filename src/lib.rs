//! Building blocks of a streaming pitch tracker and pitch corrector.
//!
//! - `window`: the overlapping analysis window that samples are collected in;
//! - `peaks`: the scan for candidate periods in a similarity curve and the
//!   choice among them;
//! - `polyphase`: the phase accumulator and delay line of a rational-factor
//!   polyphase resampler;
//! - `filterbank`: the split of a prototype lowpass into polyphase
//!   sub-filters;
//! - `module`, `additive`, `filt`, `text`: reading the parameters of
//!   processing units from text.

pub mod additive;
pub mod filt;
pub mod filterbank;
pub mod module;
pub mod peaks;
pub mod polyphase;
pub mod text;
pub mod units;
pub mod window;
