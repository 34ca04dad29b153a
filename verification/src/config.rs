//! Run configuration: output destination, exclusion patterns, hidden-file rule.

use vstd::prelude::*;

verus! {

/// Settings for one run: where the document goes, which patterns exclude
/// entries, a reserved allow list, and whether hidden entries are skipped.
#[derive(Debug)]
pub struct Config {
    pub output: String,
    pub exclude: Vec<String>,
    pub includes: Vec<String>,
    pub ignore_hidden: bool,
}

impl Config {
    /// The configuration written when none exists yet: output under the
    /// tool's own subdirectory, lockfiles and markdown excluded, hidden
    /// entries skipped.
    pub fn default() -> (c: Config)
        ensures
            c.output@ == "copycat/concatenated_codebase.md"@,
            c.exclude@.len() == 2,
            c.exclude@[0]@ == "*.lock"@,
            c.exclude@[1]@ == "*.md"@,
            c.includes@.len() == 0,
            c.ignore_hidden == true,
    {
        let mut exclude: Vec<String> = Vec::new();
        exclude.push("*.lock".to_owned());
        exclude.push("*.md".to_owned());
        Config {
            output: "copycat/concatenated_codebase.md".to_owned(),
            exclude,
            includes: Vec::new(),
            ignore_hidden: true,
        }
    }
}

} // verus!
