//! The request/streaming-response substream protocol: the names a node
//! advertises for negotiation, and the shared shape both upgrade
//! directions produce.
use vstd::prelude::*;

verus! {

/// Response substream upgrade protocol: receives a request and sends a
/// stream of responses on the negotiated sub-protocol.
#[derive(Debug)]
pub struct Protocol<P> {
    pub protocols: Vec<P>,
}

impl<P> Protocol<P> {
    /// The sub-protocol names advertised for negotiation, in order.
    pub fn protocol_info(&self) -> (r: &Vec<P>)
        ensures
            r@ == self.protocols@,
    {
        &self.protocols
    }

    /// An accepted inbound substream: negotiation cannot fail, and the
    /// upgrade hands back the stream with the matched protocol name.
    pub fn upgrade_inbound<S>(self, io: S, protocol: P) -> (r: (S, P))
        ensures
            r.0 == io,
            r.1 == protocol,
    {
        (io, protocol)
    }

    /// An opened outbound substream: the same output shape as inbound,
    /// so routing can key on the protocol name alone.
    pub fn upgrade_outbound<S>(self, io: S, protocol: P) -> (r: (S, P))
        ensures
            r.0 == io,
            r.1 == protocol,
    {
        (io, protocol)
    }
}

} // verus!
