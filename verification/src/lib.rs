//! Analysis and scoring of recorded assistant sessions: lexical metrics of a
//! transcript, bounded quality scores, per-methodology statistics, and the
//! session store they are computed from.

pub mod analyzer;
pub mod calendar;
pub mod cli;
pub mod git;
pub mod logger;
pub mod matcher;
pub mod patterns;
pub mod session;
pub mod text;
