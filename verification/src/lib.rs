//! The judgement behind `mlxtop`, a terminal monitor for machines that serve
//! large language models: what a reading of the machine means, what is written
//! down of it, and what is shown.
//!
//! Every function here is a function of its arguments. Reading counters, asking
//! the model server and drawing on a terminal are left to the program around it.
use vstd::prelude::*;

pub mod binary64;
pub mod chart;
pub mod chart_panel;
pub mod classify;
pub mod cli;
pub mod client;
pub mod collector;
pub mod completion;
pub mod correlation;
pub mod diagnostics;
pub mod interface;
pub mod journal;
pub mod json;
pub mod labels;
pub mod layout;
pub mod mlx;
pub mod model;
pub mod natural;
pub mod numeral;
pub mod omlx;
pub mod order;
pub mod panels;
pub mod processes;
pub mod report;
pub mod requests;
pub mod sampling;
pub mod schedule;
pub mod server;
pub mod system;
pub mod text;
pub mod thresholds;
pub mod units;

verus! {

} // verus!
