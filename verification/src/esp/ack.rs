//! Acks that go back to whoever wrote a config value or a bulk op.

use vstd::prelude::*;

verus! {

/// Outcome of a config write or a bulk op.
#[derive(Clone, Copy, Debug, PartialEq, Eq, Structural)]
pub enum AckStatus {
    /// Applied.
    Applied,
    /// The GPS service's "bad value".
    BadValue,
    /// The WIO refused ([`crate::ble::ACK_WIO_ERROR`]).
    WioError,
    /// The WIO did not answer ([`crate::ble::ACK_WIO_TIMEOUT`]).
    WioTimeout,
    /// Not possible in this state ([`crate::ble::ACK_BAD_STATE`]).
    BadState,
    /// Another status of the GPS service.
    Other(u8),
}

/// One ack: `[id, status, applied value]`.
#[derive(Debug, PartialEq, Eq)]
pub struct Ack {
    pub id: u8,
    pub status: AckStatus,
    pub value: Vec<u8>,
}

/// What an ack says.
#[verifier::ext_equal]
pub struct AckView {
    pub id: u8,
    pub status: AckStatus,
    pub value: Seq<u8>,
}

impl View for Ack {
    type V = AckView;

    open spec fn view(&self) -> AckView {
        AckView { id: self.id, status: self.status, value: self.value@ }
    }
}

/// An ack without a value.
pub open spec fn bare(id: u8, status: AckStatus) -> AckView {
    AckView { id, status, value: Seq::empty() }
}

/// An ack that something was applied.
pub open spec fn applied(id: u8, value: Seq<u8>) -> AckView {
    AckView { id, status: AckStatus::Applied, value }
}

impl Ack {
    pub fn bare(id: u8, status: AckStatus) -> (a: Ack)
        ensures
            a@ == bare(id, status),
    {
        Ack { id, status, value: Vec::new() }
    }

    pub fn applied(id: u8, value: &[u8]) -> (a: Ack)
        ensures
            a@ == applied(id, value@),
    {
        let mut v: Vec<u8> = Vec::new();
        crate::wire::append(&mut v, value);
        assert(v@ =~= value@);
        Ack { id, status: AckStatus::Applied, value: v }
    }
}

/// An ack says for which write it is, how that went, and the value applied.
pub proof fn law_ack_says_what_happened(id: u8, status: AckStatus, value: Seq<u8>)
    ensures
        bare(id, status).id == id,
        bare(id, status).status == status,
        bare(id, status).value.len() == 0,
        applied(id, value).id == id,
        applied(id, value).status == AckStatus::Applied,
        applied(id, value).value == value,
{
}

} // verus!
