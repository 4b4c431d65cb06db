use vstd::prelude::*;

verus! {

/// How `tags_to_lanes` finishes its work.
#[non_exhaustive]
#[derive(Clone, Copy, Debug, PartialEq, Eq)]
pub struct Config {
    /// Fail when the inference succeeded with warnings.
    pub error_on_warnings: bool,
    /// Put a separator between every two neighbouring lanes.
    pub include_separators: bool,
}

impl Config {
    /// A configuration with the given options.
    #[must_use]
    pub fn new(error_on_warnings: bool, include_separators: bool) -> (config: Config)
        ensures
            config.error_on_warnings == error_on_warnings,
            config.include_separators == include_separators,
    {
        Config { error_on_warnings, include_separators }
    }
}

impl Default for Config {
    fn default() -> (config: Config)
        ensures
            !config.error_on_warnings,
            config.include_separators,
    {
        Config { error_on_warnings: false, include_separators: true }
    }
}

} // verus!
