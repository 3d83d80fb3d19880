//! Command-line front end of the Reframe project generator: argument and
//! parameter handling, the usage text, and parameters read from YAML.

pub mod text;
pub mod param;
pub mod yaml;
pub mod args;
pub mod cli;
pub mod usage;
