//! What one relay call came to, and how a raw reply is classified.

use vstd::prelude::*;
use crate::constants::TIMEOUT_ERROR_CODE;
use crate::error::{lossy_utf8, string_from_utf8_lossy, PbsError, PbsErrorView};

verus! {

/// What the transport hands back for one call to one relay.
#[derive(Debug)]
pub enum RelayReply {
    /// The relay answered: its status code, the body, and the time from the
    /// start of the call to the arrival of the response headers.
    Answered { status_code: u16, body: Vec<u8>, latency_micros: u64 },
    /// The call ran into its time limit.
    TimedOut,
    /// The relay could not be reached, or the connection broke.
    Unreachable,
}

/// A reply by its contents.
pub enum RelayReplyView {
    Answered { status_code: u16, body: Seq<u8>, latency_micros: u64 },
    TimedOut,
    Unreachable,
}

impl View for RelayReply {
    type V = RelayReplyView;

    open spec fn view(&self) -> RelayReplyView {
        match self {
            RelayReply::Answered { status_code, body, latency_micros } => RelayReplyView::Answered {
                status_code: *status_code,
                body: body@,
                latency_micros: *latency_micros,
            },
            RelayReply::TimedOut => RelayReplyView::TimedOut,
            RelayReply::Unreachable => RelayReplyView::Unreachable,
        }
    }
}

/// The outcome of one relay call, whatever the endpoint.
#[derive(Debug)]
pub enum EndpointOutcome {
    Success { body: Vec<u8>, status_code: u16, latency_micros: u64 },
    HttpError { status_code: u16, body: Vec<u8>, latency_micros: u64 },
    Timeout,
    TransportError,
}

/// An outcome by its contents.
pub enum EndpointOutcomeView {
    Success { body: Seq<u8>, status_code: u16, latency_micros: u64 },
    HttpError { status_code: u16, body: Seq<u8>, latency_micros: u64 },
    Timeout,
    TransportError,
}

impl View for EndpointOutcome {
    type V = EndpointOutcomeView;

    open spec fn view(&self) -> EndpointOutcomeView {
        match self {
            EndpointOutcome::Success { body, status_code, latency_micros } => EndpointOutcomeView::Success {
                body: body@,
                status_code: *status_code,
                latency_micros: *latency_micros,
            },
            EndpointOutcome::HttpError { status_code, body, latency_micros } => EndpointOutcomeView::HttpError {
                status_code: *status_code,
                body: body@,
                latency_micros: *latency_micros,
            },
            EndpointOutcome::Timeout => EndpointOutcomeView::Timeout,
            EndpointOutcome::TransportError => EndpointOutcomeView::TransportError,
        }
    }
}

impl Clone for RelayReply {
    fn clone(&self) -> (copy: RelayReply)
        ensures
            copy@ == self@,
    {
        match self {
            RelayReply::Answered { status_code, body, latency_micros } => RelayReply::Answered {
                status_code: *status_code,
                body: body.clone(),
                latency_micros: *latency_micros,
            },
            RelayReply::TimedOut => RelayReply::TimedOut,
            RelayReply::Unreachable => RelayReply::Unreachable,
        }
    }
}

impl Clone for EndpointOutcome {
    fn clone(&self) -> (copy: EndpointOutcome)
        ensures
            copy@ == self@,
    {
        match self {
            EndpointOutcome::Success { body, status_code, latency_micros } => EndpointOutcome::Success {
                body: body.clone(),
                status_code: *status_code,
                latency_micros: *latency_micros,
            },
            EndpointOutcome::HttpError { status_code, body, latency_micros } => EndpointOutcome::HttpError {
                status_code: *status_code,
                body: body.clone(),
                latency_micros: *latency_micros,
            },
            EndpointOutcome::Timeout => EndpointOutcome::Timeout,
            EndpointOutcome::TransportError => EndpointOutcome::TransportError,
        }
    }
}

/// What a relay sent with a status of the success class.
#[derive(Debug)]
pub struct RelayAnswer {
    pub body: Vec<u8>,
    pub status_code: u16,
    pub latency_micros: u64,
}

/// An answer by its contents.
pub struct RelayAnswerView {
    pub body: Seq<u8>,
    pub status_code: u16,
    pub latency_micros: u64,
}

impl View for RelayAnswer {
    type V = RelayAnswerView;

    open spec fn view(&self) -> RelayAnswerView {
        RelayAnswerView {
            body: self.body@,
            status_code: self.status_code,
            latency_micros: self.latency_micros,
        }
    }
}

/// Whether `res` is what an outcome counts as in a race: a success with
/// what the relay sent, or the failure that any other outcome stands for. An
/// answer outside the success class fails with its status code and with its
/// body as text.
pub open spec fn raced(outcome: EndpointOutcomeView, res: Result<RelayAnswer, PbsError>) -> bool {
    match outcome {
        EndpointOutcomeView::Success { body, status_code, latency_micros } => res matches Ok(answer)
            && answer@ == (RelayAnswerView { body, status_code, latency_micros }),
        EndpointOutcomeView::HttpError { status_code, body, .. } => res matches Err(e) && e@ == (
        PbsErrorView::RelayResponse { error_msg: lossy_utf8(body), code: status_code }),
        EndpointOutcomeView::Timeout => res matches Err(e) && e@ == PbsErrorView::Timeout,
        EndpointOutcomeView::TransportError => res matches Err(e) && e@ == PbsErrorView::Transport,
    }
}

/// Whether a status code is one of the success class, 200 to 299.
pub open spec fn success_status(status_code: u16) -> bool {
    200 <= status_code < 300
}

/// Whether a status code is one of the success class.
pub fn is_success(status_code: u16) -> (ok: bool)
    ensures
        ok == success_status(status_code),
{
    300 > status_code && status_code >= 200
}

/// The outcome that a reply stands for: an answer is a success exactly when
/// its status is of the success class; body, status and latency pass through.
pub open spec fn classified(reply: RelayReplyView) -> EndpointOutcomeView {
    match reply {
        RelayReplyView::Answered { status_code, body, latency_micros } => if success_status(
            status_code,
        ) {
            EndpointOutcomeView::Success { body, status_code, latency_micros }
        } else {
            EndpointOutcomeView::HttpError { status_code, body, latency_micros }
        },
        RelayReplyView::TimedOut => EndpointOutcomeView::Timeout,
        RelayReplyView::Unreachable => EndpointOutcomeView::TransportError,
    }
}

/// The status code under which an outcome is counted: the relay's own for an
/// answer, the reserved one where no answer came.
pub open spec fn counted_status(outcome: EndpointOutcomeView) -> u16 {
    match outcome {
        EndpointOutcomeView::Success { status_code, .. } => status_code,
        EndpointOutcomeView::HttpError { status_code, .. } => status_code,
        EndpointOutcomeView::Timeout => TIMEOUT_ERROR_CODE,
        EndpointOutcomeView::TransportError => TIMEOUT_ERROR_CODE,
    }
}

/// The latency that is observed for an outcome: that of an answer, none where
/// no answer came.
pub open spec fn observed_latency(outcome: EndpointOutcomeView) -> Option<u64> {
    match outcome {
        EndpointOutcomeView::Success { latency_micros, .. } => Some(latency_micros),
        EndpointOutcomeView::HttpError { latency_micros, .. } => Some(latency_micros),
        EndpointOutcomeView::Timeout => None,
        EndpointOutcomeView::TransportError => None,
    }
}

impl EndpointOutcome {
    /// Classifies a raw reply.
    pub fn classify(reply: RelayReply) -> (outcome: EndpointOutcome)
        ensures
            outcome@ == classified(reply@),
    {
        match reply {
            RelayReply::Answered { status_code, body, latency_micros } => {
                if is_success(status_code) {
                    EndpointOutcome::Success { body, status_code, latency_micros }
                } else {
                    EndpointOutcome::HttpError { status_code, body, latency_micros }
                }
            },
            RelayReply::TimedOut => EndpointOutcome::Timeout,
            RelayReply::Unreachable => EndpointOutcome::TransportError,
        }
    }

    /// Turns the outcome into what it counts as in a race: only a success
    /// can win one.
    pub fn into_result(self) -> (res: Result<RelayAnswer, PbsError>)
        ensures
            raced(self@, res),
            res is Ok <==> self@ is Success,
    {
        match self {
            EndpointOutcome::Success { body, status_code, latency_micros } => Ok(
                RelayAnswer { body, status_code, latency_micros },
            ),
            EndpointOutcome::HttpError { status_code, body, .. } => Err(
                PbsError::relay_response(string_from_utf8_lossy(&body), status_code),
            ),
            EndpointOutcome::Timeout => Err(PbsError::Timeout),
            EndpointOutcome::TransportError => Err(PbsError::Transport),
        }
    }

    /// Whether the relay answered with a status of the success class.
    pub fn is_success(&self) -> (ok: bool)
        ensures
            ok == (self@ is Success),
    {
        match self {
            EndpointOutcome::Success { .. } => true,
            _ => false,
        }
    }

    /// The status code under which the outcome is counted.
    pub fn status_code(&self) -> (code: u16)
        ensures
            code == counted_status(self@),
    {
        match self {
            EndpointOutcome::Success { status_code, .. } => *status_code,
            EndpointOutcome::HttpError { status_code, .. } => *status_code,
            EndpointOutcome::Timeout => TIMEOUT_ERROR_CODE,
            EndpointOutcome::TransportError => TIMEOUT_ERROR_CODE,
        }
    }

    /// The latency that is observed for the outcome, if any.
    pub fn latency_micros(&self) -> (latency: Option<u64>)
        ensures
            latency == observed_latency(self@),
    {
        match self {
            EndpointOutcome::Success { latency_micros, .. } => Some(*latency_micros),
            EndpointOutcome::HttpError { latency_micros, .. } => Some(*latency_micros),
            EndpointOutcome::Timeout => None,
            EndpointOutcome::TransportError => None,
        }
    }
}

} // verus!
