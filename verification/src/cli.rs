//! Command line overrides of the configuration file.

use vstd::prelude::*;

verus! {

/// An output language named on the command line.
#[derive(Debug, Clone, Copy, PartialEq, Eq)]
pub enum LanguageArg {
    C,
    Rust,
}

/// The command line: each option overrides the matching configuration
/// setting; empty lists and absent options leave the configuration in force.
#[derive(Debug, Clone)]
pub struct Cli {
    pub config: Option<String>,
    pub font: Option<String>,
    pub chars: Vec<String>,
    pub sizes: Vec<u32>,
    pub language: Option<LanguageArg>,
    pub output_name: Option<String>,
    pub output_dir: Option<String>,
    pub preserve_space: Option<bool>,
}

} // verus!
