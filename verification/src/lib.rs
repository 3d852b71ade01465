//! Scan orchestration and result reporting for rule-based static analysis of C and C++
//! source text and of the pseudocode that a decompiler gives for the functions of a binary.
//!
//! A scan applies a set of rules to its targets and reports what was found through up to
//! three channels: each match in its context on the console, a summary table on the
//! console, and durable records as lines of JSON. This library holds what a scan decides
//! and computes:
//!
//! - [`config`]: the configuration of a scan and the rules by which one is accepted;
//! - [`filter`]: which paths are targets;
//! - [`matcher`]: the pattern matcher, which is the work of `weggli_ruleset`;
//! - [`source`] and [`binary`]: the analysis of one target and the course of a scan in
//!   either mode;
//! - [`common`]: the findings for one scanned entity, and the record made of them;
//! - [`display`], [`jsonl`] and [`reporter`]: what each channel receives.
//!
//! Reading files, opening databases, walking directories, running workers side by side
//! and writing to the console or to a file are left to the caller, who hands in what
//! was read and writes out what comes back.

pub mod binary;
pub mod common;
pub mod config;
pub mod display;
pub mod error;
pub mod filter;
pub mod jsonl;
pub mod matcher;
pub mod reporter;
pub mod rules;
pub mod source;
