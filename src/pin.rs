//! A pin on the target, read and set through the connection.

use vstd::prelude::*;

use crate::conn::{ConnReceiveError, ConnSendError};
use crate::message::{HostMsg, HostToTarget, Level, TargetMsg, TargetToHost};

verus! {

/// How long a pin read waits for its reply: the expected local round trip.
pub const READ_LEVEL_TIMEOUT_MS: u64 = 10;

/// Why a pin level could not be read.
#[derive(Debug)]
pub enum ReadLevelError {
    /// The read command could not be sent.
    Send(ConnSendError),
    /// No reply could be received.
    Receive(ConnReceiveError),
    /// A message other than the pin's level came back.
    UnexpectedMessage(TargetToHost),
}

/// A handle on the pin of the target that `id` designates. It holds no state
/// beyond that marker.
pub struct Pin<Id> {
    pub id: Id,
}

impl<Id> Pin<Id> {
    pub fn new(id: Id) -> (r: Pin<Id>)
        ensures
            r.id == id,
    {
        Pin { id }
    }

    /// The command that sets the pin to `level`. No reply is expected.
    pub fn set_level(&self, level: Level) -> (r: HostToTarget)
        ensures
            r@ == HostMsg::SetPin(level),
    {
        HostToTarget::SetPin(level)
    }

    /// The command that asks for the pin's level.
    pub fn read_level(&self) -> (r: HostToTarget)
        ensures
            r@ == HostMsg::ReadPin,
    {
        HostToTarget::ReadPin
    }

    /// The level that `reply` to a read reports; any other message is a
    /// protocol violation.
    pub fn read_level_reply(&self, reply: TargetToHost) -> (r: Result<Level, ReadLevelError>)
        ensures
            match reply@ {
                TargetMsg::ReadPinResult(l) => r == Ok::<Level, ReadLevelError>(l),
                _ => r matches Err(ReadLevelError::UnexpectedMessage(m)) && m@ == reply@,
            },
    {
        match reply {
            TargetToHost::ReadPinResult(l) => Ok(l),
            other => Err(ReadLevelError::UnexpectedMessage(other)),
        }
    }
}

} // verus!
