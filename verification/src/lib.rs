//! The execution engine of a property-based testing harness: it runs a
//! predicate against generated inputs, accounts for rejected inputs, shrinks a
//! failing input to a locally minimal one and frames the records under which
//! failing seeds are kept between runs.

pub mod config;
pub mod decimal;
pub mod histogram;
pub mod laws;
pub mod location;
pub mod model;
pub mod num;
pub mod order;
pub mod outcome;
pub mod persist;
mod regen;
pub mod rng;
pub mod roundtrip;
pub mod runner;
pub mod scan;
pub mod shrink;
pub mod strategy;
pub mod text;

pub use config::{Config, FailurePersistence};
pub use outcome::{TestCaseError, TestCaseResult, TestError};
pub use runner::TestRunner;
pub use strategy::{Strategy, ValueFor, ValueTree};
