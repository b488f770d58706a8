use vstd::prelude::*;

verus! {

/// Failures raised by the streaming bridge.
///
/// Every error is local to one in-flight response stream; none is
/// process-fatal.
#[derive(Clone, Copy, Debug, PartialEq, Eq, Structural)]
pub enum StreamError {
    /// The receiving side of the bounded queue (or the drain worker) has
    /// disappeared, typically because the client disconnected.
    ConsumerGone,
    /// The downstream destination writer (for example the compressor)
    /// reported a failure while consuming a chunk.
    DestinationFailed,
}

impl StreamError {
    /// A human-readable description of the failure.
    pub fn message(&self) -> (r: &'static str)
        ensures
            *self is ConsumerGone ==> r@ == "receiver disconnected"@,
            *self is DestinationFailed ==> r@ == "destination writer failed"@,
    {
        match self {
            StreamError::ConsumerGone => "receiver disconnected",
            StreamError::DestinationFailed => "destination writer failed",
        }
    }
}

} // verus!
