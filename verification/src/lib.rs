//! `lp_diff`: the decision logic of an LP/MPS model explorer and diff viewer.
//!
//! The library holds what the viewer computes and decides — entry matching,
//! counts, navigation state, search, text parsing and report text — with each
//! function's behaviour stated in its contract and proved.
mod bytes;
mod lines;
mod text;

pub mod clipboard;
pub mod diagnostics;
pub mod diff_model;
pub mod export;
pub mod format;
pub mod highs_presolve;
pub mod highs_query;
pub mod keys;
pub mod line_index;
pub mod merge;
pub mod nav;
pub mod popup;
pub mod presolve;
pub mod profile;
pub mod rename;
pub mod search;
pub mod session;
pub mod solver;
pub mod source;
pub mod state;
pub mod tabs;
pub mod theme;
pub mod watch;
