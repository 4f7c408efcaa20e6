//! Batch conversion of HKX / XML / KF game-asset files through external
//! command-line converters: the tool capability tables, the output-path
//! rules, the argument lists handed to each converter, and the decisions of
//! a batch run (what each task does, how progress is tallied).

pub mod tools;
pub mod path;
pub mod resolve;
pub mod invocation;
pub mod batch;
pub mod inputs;
pub mod selection;
