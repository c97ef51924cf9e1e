//! The two messages exchanged between simulator and viewer.

use vstd::prelude::*;

verus! {

/// A position sample: arena coordinates in whole pixels, stamped with the
/// simulator's sequence number (`packet_index` on the wire).
#[derive(Clone, Copy, Debug, PartialEq, Eq, Structural)]
pub struct Data {
    pub x: i64,
    pub y: i64,
    pub packet_index: i16,
}

/// A control message sent from viewer to simulator. Zero acknowledges the
/// previous data packet; any other value asks for the sample with that
/// sequence number to be sent again.
#[derive(Clone, Copy, Debug, PartialEq, Eq, Structural)]
pub struct ClientResponse {
    pub packet_index: i16,
}

impl ClientResponse {
    pub open spec fn is_ack_spec(self) -> bool {
        self.packet_index == 0
    }

    /// The positive acknowledgement.
    pub fn ack() -> (r: ClientResponse)
        ensures
            r.packet_index == 0,
    {
        ClientResponse { packet_index: 0 }
    }

    /// A request to retransmit sample `seq`.
    pub fn nak(seq: i16) -> (r: ClientResponse)
        ensures
            r.packet_index == seq,
    {
        ClientResponse { packet_index: seq }
    }

    /// Whether this message is a plain acknowledgement rather than a request.
    pub fn is_ack(&self) -> (r: bool)
        ensures
            r == self.is_ack_spec(),
    {
        self.packet_index == 0
    }
}

} // verus!
