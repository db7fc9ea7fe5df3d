//! The proposer-slot check: the duties of the current epoch are asked of every
//! relay in a race, and the first answer is held against the caller's claim.

use vstd::prelude::*;
use crate::constants::EndpointTag;
use crate::error::{lossy_utf8, PbsError, PbsErrorView};
use crate::fanout::{all_failed, race, settle, wins, RaceVerdict};
use crate::headers::{header_value_text, header_views, outgoing, send_headers, Header, HeaderError};
use crate::metrics::{status_key, with_latency, MetricsRecorder};
use crate::outcome::{classified, EndpointOutcomeView, RelayReply, RelayReplyView};
use crate::proposer::{has_proposer, BlsPublicKey, GetProposerEpochResponse, ProposerError};
use crate::relay::Relay;

verus! {

/// What a request carries from its entry to its response: the slot it is
/// about, and a token that ties the outgoing calls to it in logs.
#[derive(Clone, Copy, Debug, PartialEq, Eq, Structural)]
pub struct RequestContext {
    pub slot: u64,
    pub request_id: u128,
}

/// Why the proposer-slot check failed.
#[derive(Debug)]
pub enum DutyCheckError {
    /// No relay was called: the headers of the call could not be made.
    InvalidHeader(HeaderError),
    /// Every relay failed or timed out: the relay set is unavailable.
    NoRelayResponse,
    /// A relay answered, and its duties do not bear the claim out.
    ProposerNotFound(ProposerError),
}

/// What a failed check says where the headers could not be made.
pub const INVALID_HEADER: &'static str = "failed to parse header value";

/// What a failed check says where no relay answered.
pub const NO_RELAY_RESPONSE: &'static str = "No relay returned get_proposer_duties successfully";

impl DutyCheckError {
    /// The error as a line of text.
    pub open spec fn text(self) -> Seq<char> {
        match self {
            DutyCheckError::InvalidHeader(_) => INVALID_HEADER@,
            DutyCheckError::NoRelayResponse => NO_RELAY_RESPONSE@,
            DutyCheckError::ProposerNotFound(err) => err.text(),
        }
    }

    /// The error as a line of text.
    pub fn to_string(&self) -> (line: String)
        ensures
            line@ == self.text(),
    {
        match self {
            DutyCheckError::InvalidHeader(_) => INVALID_HEADER.to_owned(),
            DutyCheckError::NoRelayResponse => NO_RELAY_RESPONSE.to_owned(),
            DutyCheckError::ProposerNotFound(err) => err.to_string(),
        }
    }
}

/// What the call for a relay's duties comes to, given how the reply was
/// classified and what decoding its body gave. Only the body of a success is
/// looked at as duties; one that does not decode makes the call a failure.
pub open spec fn duties_of(
    outcome: EndpointOutcomeView,
    decoded: Option<GetProposerEpochResponse>,
    res: Result<GetProposerEpochResponse, PbsError>,
) -> bool {
    match outcome {
        EndpointOutcomeView::Success { .. } => match decoded {
            Some(duties) => res == Ok::<GetProposerEpochResponse, PbsError>(duties),
            None => res matches Err(e) && e@ == PbsErrorView::JsonDecode,
        },
        EndpointOutcomeView::HttpError { status_code, body, .. } => res matches Err(e) && e@ == (
        PbsErrorView::RelayResponse { error_msg: lossy_utf8(body), code: status_code }),
        EndpointOutcomeView::Timeout => res matches Err(e) && e@ == PbsErrorView::Timeout,
        EndpointOutcomeView::TransportError => res matches Err(e) && e@ == PbsErrorView::Transport,
    }
}

/// Settles the call for one relay's proposer duties. `reply` is what the
/// transport handed back, `decoded` what decoding the body as duties gave
/// (`None` where it did not decode, or was not tried because the status is no
/// success). The outcome is recorded once; the duties are handed out only for
/// a success whose body decoded.
pub fn get_proposer_duties_url(
    relay: &Relay,
    reply: RelayReply,
    decoded: Option<GetProposerEpochResponse>,
    recorder: &mut MetricsRecorder,
) -> (res: Result<GetProposerEpochResponse, PbsError>)
    ensures
        duties_of(classified(reply@), decoded, res),
        res is Ok <==> (reply@ matches RelayReplyView::Answered { status_code, .. }
            && crate::outcome::success_status(status_code) && decoded is Some),
        final(recorder).status_log() == old(recorder).status_log().push(
            status_key(EndpointTag::GetProposerDuties, relay.id@, classified(reply@)),
        ),
        final(recorder).counters() == old(recorder).counters().insert(
            status_key(EndpointTag::GetProposerDuties, relay.id@, classified(reply@)),
        ),
        final(recorder).latency_log() == with_latency(
            old(recorder).latency_log(),
            EndpointTag::GetProposerDuties,
            relay.id@,
            classified(reply@),
        ),
{
    let outcome = settle(relay, EndpointTag::GetProposerDuties, reply, recorder);
    match outcome.into_result() {
        Ok(_) => match decoded {
            Some(duties) => Ok(duties),
            None => Err(PbsError::JsonDecode),
        },
        Err(err) => Err(err),
    }
}

/// Makes the headers that go out to every relay with the call for its
/// duties: the start time, and the caller's user agent if it named one. Where
/// that cannot stand in a header the check fails before any relay is called.
pub fn duty_headers(now_ms: u64, user_agent: Option<String>) -> (res: Result<
    Vec<Header>,
    DutyCheckError,
>)
    ensures
        res is Ok <==> (user_agent matches Some(agent) ==> header_value_text(agent@)),
        res matches Ok(headers) ==> {
            &&& header_views(headers@) == outgoing(now_ms, user_agent)
            &&& forall|i: int|
                0 <= i < headers@.len() ==> header_value_text((#[trigger] headers@[i]).value@)
        },
        res matches Err(e) ==> e == DutyCheckError::InvalidHeader(HeaderError::InvalidUserAgent),
{
    match send_headers(now_ms, user_agent) {
        Ok(headers) => Ok(headers),
        Err(e) => Err(DutyCheckError::InvalidHeader(e)),
    }
}

/// Whether the first relay to succeed bears the claim out: its duties name
/// one of `pubkeys` as the proposer of `slot`.
pub open spec fn confirmed(
    arrivals: Seq<Result<GetProposerEpochResponse, PbsError>>,
    pubkeys: Seq<BlsPublicKey>,
    slot: u64,
) -> bool {
    exists|p: int| #[trigger]
        wins(arrivals, p) && has_proposer(arrivals[p]->Ok_0.data@, pubkeys, slot)
}

/// Whether the first relay to succeed contradicts the claim: its duties name
/// none of `pubkeys` as the proposer of `slot`.
pub open spec fn refuted(
    arrivals: Seq<Result<GetProposerEpochResponse, PbsError>>,
    pubkeys: Seq<BlsPublicKey>,
    slot: u64,
) -> bool {
    exists|p: int| #[trigger]
        wins(arrivals, p) && !has_proposer(arrivals[p]->Ok_0.data@, pubkeys, slot)
}

/// Holds the verdict of the race for the duties against the claim that one of
/// `pubkeys` proposes at `slot`. A winner whose duties do not bear the claim
/// out fails the check as "proposer not found"; a race that no relay won
/// fails it as "no relay responded".
pub fn check_winner(
    verdict: RaceVerdict<GetProposerEpochResponse>,
    pubkeys: Vec<BlsPublicKey>,
    slot: u64,
) -> (res: Result<(), DutyCheckError>)
    ensures
        res is Ok <==> (verdict matches RaceVerdict::Won(duties) && has_proposer(
            duties.data@,
            pubkeys@,
            slot,
        )),
        res matches Err(e) ==> {
            &&& e is NoRelayResponse <==> verdict is AllFailed
            &&& e is ProposerNotFound <==> verdict is Won
        },
        res matches Err(DutyCheckError::ProposerNotFound(e)) ==> e.message()
            == crate::proposer::PROPOSER_NOT_FOUND@,
{
    match verdict {
        RaceVerdict::Won(duties) => match duties.check_proposers_slots(pubkeys, slot) {
            Ok(()) => Ok(()),
            Err(e) => Err(DutyCheckError::ProposerNotFound(e)),
        },
        RaceVerdict::AllFailed => Err(DutyCheckError::NoRelayResponse),
    }
}

/// The proposer-slot check over the results of the calls to every relay,
/// given in the order in which they arrived. The first success decides: the
/// check passes if its duties name one of `pubkeys` as the proposer of the
/// request's slot, and fails as "proposer not found" if they do not, whatever
/// the other relays returned. Where no relay succeeded it fails as "no relay
/// responded".
pub fn check_proposers_slot(
    pubkeys: Vec<BlsPublicKey>,
    context: &RequestContext,
    arrivals: Vec<Result<GetProposerEpochResponse, PbsError>>,
) -> (res: Result<(), DutyCheckError>)
    ensures
        res is Ok <==> confirmed(arrivals@, pubkeys@, context.slot),
        res matches Err(e) ==> {
            &&& e is NoRelayResponse <==> all_failed(arrivals@)
            &&& e is ProposerNotFound <==> refuted(arrivals@, pubkeys@, context.slot)
        },
        res matches Err(DutyCheckError::ProposerNotFound(e)) ==> e.message()
            == crate::proposer::PROPOSER_NOT_FOUND@,
{
    let ghost all = arrivals@;
    let verdict = race(arrivals);
    proof {
        lemma_one_of_three(all, pubkeys@, context.slot);
        if verdict is Won {
            let duties = verdict->Won_0;
            let p = choose|p: int| #[trigger]
                wins(all, p) && all[p] == Ok::<GetProposerEpochResponse, PbsError>(duties);
            assert(all[p]->Ok_0 == duties);
        }
    }
    check_winner(verdict, pubkeys, context.slot)
}

/// Of a check exactly one holds: the first success bears the claim out, the
/// first success contradicts it, or no relay succeeded.
pub proof fn lemma_one_of_three(
    arrivals: Seq<Result<GetProposerEpochResponse, PbsError>>,
    pubkeys: Seq<BlsPublicKey>,
    slot: u64,
)
    ensures
        confirmed(arrivals, pubkeys, slot) || refuted(arrivals, pubkeys, slot) || all_failed(
            arrivals,
        ),
        !(confirmed(arrivals, pubkeys, slot) && refuted(arrivals, pubkeys, slot)),
        !(confirmed(arrivals, pubkeys, slot) && all_failed(arrivals)),
        !(refuted(arrivals, pubkeys, slot) && all_failed(arrivals)),
{
    if confirmed(arrivals, pubkeys, slot) {
        let p = choose|p: int| #[trigger]
            wins(arrivals, p) && has_proposer(arrivals[p]->Ok_0.data@, pubkeys, slot);
        lemma_first_success_is_one(arrivals, p);
    }
    if refuted(arrivals, pubkeys, slot) {
        let q = choose|q: int| #[trigger]
            wins(arrivals, q) && !has_proposer(arrivals[q]->Ok_0.data@, pubkeys, slot);
        lemma_first_success_is_one(arrivals, q);
    }
    if !all_failed(arrivals) {
        let p = lemma_first_success_exists(arrivals);
        lemma_first_success_is_one(arrivals, p);
    }
}

/// The first success is one result, and where there is one not all failed.
proof fn lemma_first_success_is_one(arrivals: Seq<Result<GetProposerEpochResponse, PbsError>>, p: int)
    requires
        wins(arrivals, p),
    ensures
        !all_failed(arrivals),
        forall|q: int| #[trigger] wins(arrivals, q) ==> q == p,
{
    assert(arrivals[p] is Ok);
    assert forall|q: int| #[trigger] wins(arrivals, q) implies q == p by {
        if q < p {
            assert(arrivals[q] is Err);
        }
        if p < q {
            assert(arrivals[p] is Err);
        }
    }
}

/// Where not every result is a failure, one of them is the first success.
proof fn lemma_first_success_exists(arrivals: Seq<Result<GetProposerEpochResponse, PbsError>>) -> (p:
    int)
    requires
        !all_failed(arrivals),
    ensures
        wins(arrivals, p),
    decreases arrivals.len(),
{
    let some = choose|i: int| 0 <= i < arrivals.len() && !((#[trigger] arrivals[i]) is Err);
    let front = arrivals.take(some);
    if all_failed(front) {
        assert forall|earlier: int| 0 <= earlier < some implies (#[trigger] arrivals[earlier]) is Err by {
            assert(front[earlier] is Err);
        }
        some
    } else {
        let p = lemma_first_success_exists(front);
        assert forall|earlier: int| 0 <= earlier < p implies (#[trigger] arrivals[earlier]) is Err by {
            assert(front[earlier] is Err);
        }
        assert(arrivals[p] == front[p]);
        p
    }
}

/// Where the pair is absent from the duties of every relay that succeeded,
/// and one relay at least succeeded, the check fails as "proposer not found".
pub proof fn lemma_absent_everywhere_is_not_found(
    arrivals: Seq<Result<GetProposerEpochResponse, PbsError>>,
    pubkeys: Seq<BlsPublicKey>,
    slot: u64,
)
    requires
        !all_failed(arrivals),
        forall|i: int|
            0 <= i < arrivals.len() && (#[trigger] arrivals[i]) is Ok ==> !has_proposer(
                arrivals[i]->Ok_0.data@,
                pubkeys,
                slot,
            ),
    ensures
        refuted(arrivals, pubkeys, slot),
        !confirmed(arrivals, pubkeys, slot),
{
    let p = lemma_first_success_exists(arrivals);
    assert(arrivals[p] is Ok);
    lemma_one_of_three(arrivals, pubkeys, slot);
}

/// Where the duties of the first relay to succeed hold a matching record, the
/// check passes, however many relays failed before it and whatever arrives
/// after it.
pub proof fn lemma_match_in_first_success_is_found(
    earlier: Seq<Result<GetProposerEpochResponse, PbsError>>,
    duties: GetProposerEpochResponse,
    later: Seq<Result<GetProposerEpochResponse, PbsError>>,
    pubkeys: Seq<BlsPublicKey>,
    slot: u64,
)
    requires
        all_failed(earlier),
        has_proposer(duties.data@, pubkeys, slot),
    ensures
        confirmed(
            earlier.push(Ok::<GetProposerEpochResponse, PbsError>(duties)) + later,
            pubkeys,
            slot,
        ),
{
    let arrivals = earlier.push(Ok::<GetProposerEpochResponse, PbsError>(duties)) + later;
    let p = earlier.len() as int;
    assert forall|e: int| 0 <= e < p implies (#[trigger] arrivals[e]) is Err by {
        assert(earlier[e] is Err);
    }
    assert(arrivals[p] == Ok::<GetProposerEpochResponse, PbsError>(duties));
    assert(wins(arrivals, p));
}

} // verus!
