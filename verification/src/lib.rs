//! Verified decision logic of a property-testing workload for a TOML
//! document parser: the outcome type of a property, the input domain, the
//! verdicts drawn from what a guarded parse did, and the runner's pure parts
//! (metrics, witness inputs, input generation alphabet, JSON reporting).
pub mod property;
pub mod text;
pub mod json;
pub mod generate;
pub mod runner;
pub mod report;
