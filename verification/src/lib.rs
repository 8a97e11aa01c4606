//! Structured-graph mutation engine for a coverage-guided, snapshot-based
//! fuzzer.
//!
//! A test case is a *graph*: a flat stream of 16-bit operation codes paired
//! with a flat stream of data bytes, meaningful only relative to an immutable
//! [`spec::GraphSpec`].  The library builds, mutates, stores and replays such
//! graphs, and keeps the renaming and connectivity bookkeeping sound under
//! arbitrary truncation and splicing.

pub mod analyzer;
pub mod aux;
pub mod bitmap;
pub mod builder;
pub mod bytes;
pub mod codec;
pub mod dict;
pub mod exitreason;
pub mod hashutil;
pub mod input;
pub mod localhash;
pub mod mutator;
pub mod newtypes;
pub mod nodes;
pub mod primitive;
pub mod queue;
pub mod random;
pub mod spec;
pub mod spec_loader;
pub mod storage;
