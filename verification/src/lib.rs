use vstd::prelude::*;

pub mod text;
pub mod fits;
pub mod paths;
pub mod files;
pub mod session;
pub mod grouping;
pub mod grouping_laws;
pub mod matching_laws;
pub mod session_order;
pub mod config;
pub mod progress;
pub mod calibration;
pub mod calibration_run;
pub mod state_updates;
pub mod file_batch;
pub mod grading;
pub mod pixels;
pub mod scan;
pub mod headers;
pub mod stacking;
pub mod tiles;

verus! {
} // verus!
