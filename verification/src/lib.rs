//! Verified core of the appz toolchain: code-check result handling, unified
//! diff parsing and application, AI-repair helpers, and WordPress blueprint
//! conversion.
use vstd::prelude::*;

pub mod agents;
pub mod blueprint;
pub mod cache;
pub mod collect;
pub mod config;
pub mod context;
pub mod crawl;
pub mod converter;
pub mod detect;
pub mod error;
pub mod executor;
pub mod fixer;
pub mod generator;
pub mod init;
pub mod grep;
pub mod json;
pub mod llm;
pub mod output;
pub mod patch;
pub mod patch_laws;
pub mod pdf;
pub mod postprocess;
pub mod providers;
pub mod repair;
pub mod runner;
pub mod runtime;
pub mod safety;
pub mod search;
pub mod text;
pub mod tools;

verus! {

} // verus!
