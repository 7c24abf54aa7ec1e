//! What a run is configured with.

use vstd::prelude::*;

verus! {

/// The output directory of a configuration that names none.
pub const DEFAULT_OUTPUT_DIRECTORY: &'static str = "./__generated__";

/// Where the schema is read from, and where generated code goes.
#[derive(Debug)]
pub struct Config {
    /// Glob paths to source schema files.
    pub schema: Vec<&'static str>,
    /// Output directory for generated code.
    pub output_directory: &'static str,
}

} // verus!
