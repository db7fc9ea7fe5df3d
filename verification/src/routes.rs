//! What the handler of a proposer-slot check does with the check's result:
//! which events it publishes, what it counts, and what the caller is told.

use vstd::prelude::*;
use crate::mev_boost::DutyCheckError;

verus! {

/// The markers of a request's life that observers are told of.
#[derive(Clone, Copy, Debug, PartialEq, Eq, Structural)]
pub enum BuilderEvent {
    /// A proposer-slot check was asked for.
    CheckProposersSlot,
    /// A proposer-slot check passed.
    CheckProposersSlotResponse,
    /// A proposer-slot check failed.
    CheckProposersSlotError,
}

/// The failures that a caller of the sidecar is told of.
#[derive(Clone, Copy, Debug, PartialEq, Eq, Structural)]
pub enum PbsClientError {
    /// No relay gave an answer that could be used.
    NoResponse,
}

/// The status code of a check that passed.
pub const STATUS_OK: u16 = 200;

/// The status code of a request that no relay answered usefully.
pub const STATUS_SERVICE_UNAVAILABLE: u16 = 503;

/// What the caller reads where no relay answered usefully.
pub const NO_RESPONSE: &'static str = "no response from relays";

impl PbsClientError {
    /// The status code that the caller is sent.
    pub fn status_code(&self) -> (code: u16)
        ensures
            code == STATUS_SERVICE_UNAVAILABLE,
    {
        match self {
            PbsClientError::NoResponse => STATUS_SERVICE_UNAVAILABLE,
        }
    }

    /// The words that the caller is sent.
    pub fn message(&self) -> (words: &'static str)
        ensures
            words@ == NO_RESPONSE@,
    {
        match self {
            PbsClientError::NoResponse => NO_RESPONSE,
        }
    }
}

/// What the handler does once the check has ended.
#[derive(Debug)]
pub struct HandlerReply {
    /// The event to publish.
    pub event: BuilderEvent,
    /// The status code that is sent to the caller, and counted for it.
    pub status_code: u16,
    /// What the caller is told, where the check failed.
    pub error: Option<PbsClientError>,
    /// Why the check failed, for the log: it tells relays that are down from
    /// relays that contradict the claim.
    pub cause: Option<DutyCheckError>,
}

/// The event that the handler publishes when a request comes in, before any
/// relay is called.
pub fn check_requested() -> (event: BuilderEvent)
    ensures
        event == BuilderEvent::CheckProposersSlot,
{
    BuilderEvent::CheckProposersSlot
}

/// Turns the result of the proposer-slot check into what the handler does: a
/// check that passed is published as resolved and answered with 200; one that
/// failed is published as failed and answered, whatever the cause, with the
/// one failure that callers are told of.
pub fn handle_check_proposers_slot(check: Result<(), DutyCheckError>) -> (reply: HandlerReply)
    ensures
        check is Ok ==> {
            &&& reply.event == BuilderEvent::CheckProposersSlotResponse
            &&& reply.status_code == STATUS_OK
            &&& reply.error is None
            &&& reply.cause is None
        },
        check matches Err(cause) ==> {
            &&& reply.event == BuilderEvent::CheckProposersSlotError
            &&& reply.status_code == STATUS_SERVICE_UNAVAILABLE
            &&& reply.error == Some(PbsClientError::NoResponse)
            &&& reply.cause == Some(cause)
        },
{
    match check {
        Ok(()) => HandlerReply {
            event: BuilderEvent::CheckProposersSlotResponse,
            status_code: STATUS_OK,
            error: None,
            cause: None,
        },
        Err(cause) => {
            let error = PbsClientError::NoResponse;
            HandlerReply {
                event: BuilderEvent::CheckProposersSlotError,
                status_code: error.status_code(),
                error: Some(error),
                cause: Some(cause),
            }
        },
    }
}

} // verus!
