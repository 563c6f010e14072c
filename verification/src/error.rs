use vstd::prelude::*;

verus! {

/// The ways a measurement run can fail. Every failure is fail-fast: a single
/// endpoint's failure aborts the whole run, and no partial figure is reported.
#[derive(Debug, Clone, Copy, PartialEq, Eq, Structural)]
pub enum SpeedTestError {
    /// The remote directory service could not be reached or decoded.
    DiscoveryFailed,
    /// An endpoint's probe response did not report a content length.
    SizeUnknown,
    /// An endpoint's stream yielded a transport error mid-download.
    TransferFailed,
    /// No speed samples were collected during the transfer window.
    NoSamples,
}

} // verus!
