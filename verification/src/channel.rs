//! Errors of the channels between the tasks.

use vstd::prelude::*;

use crate::error::Error;

verus! {

/// How many messages a channel holds.
pub const CHANNEL_CAPACITY: usize = 100;

/// Send error.
#[derive(Clone, Copy, PartialEq, Eq, Structural, Debug)]
pub enum SendError {
    /// Channel is full.
    Full,
    /// Channel is disconnected.
    Disconnected,
}

impl SendError {
    /// The error of a channel that reports to be full or to be disconnected, one of which it has
    /// to.
    pub fn from_reports(is_full: bool, is_disconnected: bool) -> (r: SendError)
        requires
            is_full || is_disconnected,
        ensures
            r == if is_full {
                SendError::Full
            } else {
                SendError::Disconnected
            },
    {
        if is_full {
            SendError::Full
        } else {
            SendError::Disconnected
        }
    }

    /// Whether the channel is full.
    pub fn is_full(self) -> (r: bool)
        ensures
            r == (self == SendError::Full),
    {
        self == SendError::Full
    }

    /// Whether the channel is disconnected.
    pub fn is_disconnected(self) -> (r: bool)
        ensures
            r == (self == SendError::Disconnected),
    {
        self == SendError::Disconnected
    }

    /// A description of this error.
    pub fn text(self) -> (r: String)
        ensures
            r@ == match self {
                SendError::Full => "Channel is full"@,
                SendError::Disconnected => "Channel is disconnected"@,
            },
    {
        match self {
            SendError::Full => "Channel is full".to_owned(),
            SendError::Disconnected => "Channel is disconnected".to_owned(),
        }
    }
}

/// The other end of a channel for one message is gone.
#[derive(Clone, Copy, PartialEq, Eq, Structural, Debug)]
pub struct Disconnected;

impl Disconnected {
    /// A description of this error.
    pub fn text(self) -> (r: String)
        ensures
            r@ == "Channel is disconnected"@,
    {
        "Channel is disconnected".to_owned()
    }
}

/// What a question to another task results in.
pub open spec fn spec_request_result<T>(
    sent: Result<(), SendError>,
    reply: Result<Result<T, Error>, Disconnected>,
) -> Result<T, Error> {
    match (sent, reply) {
        (Ok(()), Ok(reply)) => reply,
        _ => Err(Error::spec_internal()),
    }
}

/// The answer to a question that was taken counts, whatever it is. A question that was not taken, or
/// not answered, fails as the server does.
pub proof fn law_answer_counts<T>(
    sent: Result<(), SendError>,
    reply: Result<Result<T, Error>, Disconnected>,
    answer: Result<T, Error>,
)
    ensures
        sent is Ok && reply == Ok::<Result<T, Error>, Disconnected>(answer) ==> spec_request_result(
            sent,
            reply,
        ) == answer,
        sent is Err || reply is Err ==> spec_request_result(sent, reply) == Err::<T, Error>(
            Error::spec_internal(),
        ),
{
}

/// What a question to another task results in: it has to be taken, and then to be answered. Whoever
/// does neither is gone, which is a failure of the server.
pub fn request_result<T>(sent: Result<(), SendError>, reply: Result<Result<T, Error>, Disconnected>) -> (r:
    Result<T, Error>)
    ensures
        r == spec_request_result(sent, reply),
{
    match (sent, reply) {
        (Ok(()), Ok(reply)) => reply,
        _ => Err(Error::internal()),
    }
}

} // verus!
