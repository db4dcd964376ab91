use vstd::prelude::*;

verus! {

/// Why applying a theme to a target's configuration failed.
#[derive(Debug, Clone, Copy, PartialEq, Eq, Structural)]
pub enum ConfigError {
    /// The user has not enabled writing for this target.
    NotConfigured,
    /// The target's configuration path could not be determined.
    PathResolution,
    /// Reading, rendering or writing the configuration failed.
    Io,
    /// The configuration is not a valid document in its format.
    Parse,
    /// The document lacks the color subsection that the target owns.
    Schema,
}

} // verus!
