//! The failure taxonomy of the pipeline.

use vstd::prelude::*;

verus! {

/// Every way a run of the pipeline can fail. The first failure aborts the
/// run; no component retries.
#[derive(Clone, Copy, Debug, PartialEq, Eq, Structural)]
pub enum PipelineError {
    /// Network or HTTP failure while fetching.
    TransportError,
    /// No listing entry matched the three selector strings.
    NotFoundError,
    /// Corrupt or unsupported gzip/tar stream.
    ArchiveError,
    /// Local filesystem failure.
    IOError,
    /// The named app is absent from the configuration, or the configuration
    /// could not be read.
    ConfigError,
}

} // verus!
