use vstd::prelude::*;

verus! {

/// Error taxonomy for the DMX core.
///
/// Configuration and lifecycle errors are surfaced synchronously to the
/// caller of `start` / `stop` / `send`; steady-state decode errors are
/// absorbed by the receive loop (a malformed frame is dropped, never fatal).
#[derive(Clone, Copy, Debug, PartialEq, Eq, Structural)]
pub enum DmxError {
    /// `start` was called on an already-started listener.
    AlreadyRunning,
    /// `stop` or `signal_stop` was called on an inactive listener or sender.
    NotRunning,
    /// The receive port could not be bound (already in use).
    BindError,
    /// The configuration is unusable: unicast mode without an IP, or an IP
    /// string that does not parse.
    InvalidConfig,
    /// A channel number outside 1..=512 was supplied.
    InvalidChannel,
    /// An inbound frame was malformed and has been dropped.
    DecodeError,
    /// An event could not be delivered to the sink; counted, not fatal.
    SinkUnavailable,
}

} // verus!
