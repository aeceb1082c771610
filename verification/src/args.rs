//! Configuration of one compiler run.

use vstd::prelude::*;

verus! {

/// The settings a run of the aggregation driver is given: where to look for
/// markup/script sources and rule files, what to exclude, and where the
/// generated CSS goes. Command-line parsing lives outside the library and
/// hands over a value of this type.
pub struct Args {
    /// The path to the html and javascript sources.
    pub source_code: String,
    /// The path to the rule files; `None` means the same as `source_code`.
    pub neum_folder: Option<String>,
    /// Paths of folders or files to exclude.
    pub exclude: Vec<String>,
    /// The output css file.
    pub output: String,
}

impl Args {
    pub fn new(source_code: String, neum_folder: Option<String>, exclude: Vec<String>, output: String) -> (r: Args)
        ensures
            r == (Args { source_code, neum_folder, exclude, output }),
    {
        Args { source_code, neum_folder, exclude, output }
    }
}

} // verus!
