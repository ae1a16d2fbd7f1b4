//! Diagnostics: structural isolation check (first line of defence against
//! audio loops), loop-guard hysteresis (second line) and per-frame energy.

pub mod isolation;
pub mod loopcheck;
pub mod meter;
