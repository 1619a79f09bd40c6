//! Core library of a local development-environment manager.
//!
//! The heart of the crate is the workflow engine: workflows are directed
//! acyclic graphs of steps with per-step retry, timeout and
//! continue-on-error policy.  The engine validates workflows (structural
//! checks and cycle detection), answers which steps are ready to run given
//! a set of completed steps, tracks the state of a single run, and decides
//! how a run advances after each step outcome.  Around it sit the plain
//! data models of the application: analysis reports, configuration
//! records, environment descriptions, scans and workspace requests.
//!
//! Everything here is verified; process execution, persistence and the
//! user interface live outside the library and talk to it through plain
//! values.

pub mod driver;
pub mod environment;
pub mod errors;
pub mod execution;
pub mod install;
pub mod scanner;
pub mod store;
pub mod strings;
pub mod workspace;
pub mod ai_analysis;
pub mod codec;
pub mod config;
pub mod dag;
pub mod strmap;
pub mod sys;
pub mod workflow;
