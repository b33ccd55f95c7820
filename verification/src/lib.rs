//! A repository-aware code-analysis agent, reduced to the parts that decide
//! things: what a diff touches, what a finding claims, how findings are scored.

pub mod text;
pub mod finding;
pub mod bench;
pub mod order;
pub mod eval;
pub mod diff;
pub mod repo;
pub mod agent;
pub mod cases;
pub mod config;
pub mod prompts;
pub mod llm;
pub mod tools;
pub mod trajectory;
pub mod triage;
pub mod replay;
pub mod review;
pub mod runner;
