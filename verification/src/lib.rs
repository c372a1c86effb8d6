//! SysMedic: examine a Linux system, diagnose what is wrong, explain it,
//! and prescribe safe, reversible fixes.
//!
//! This crate holds the verified core: the domain model (severities,
//! categories, findings, fix plans), the scoring rules, the parsers that turn
//! the text of procfs files and system tools into that model, the fix
//! registry and its transaction journal, and the presentation tables.

pub mod alert;
pub mod apply;
pub mod collectors;
pub mod console;
pub mod diagnostics;
pub mod diskscan;
pub mod export;
pub mod finding;
pub mod fix;
pub mod fixes;
pub mod helper;
pub mod history;
pub mod journal;
pub mod knowledge;
pub mod lang;
pub mod llm;
pub mod paint;
pub mod paths;
pub mod render;
pub mod report;
pub mod schedule;
pub mod score;
pub mod snapshot;
pub mod terminal;
pub mod text;
pub mod units;
pub mod viewmodel;
