use cb_pbs::constants::EndpointTag;
use cb_pbs::error::PbsError;
use cb_pbs::fanout::{Race, RaceStep, RaceVerdict};
use cb_pbs::headers::{send_headers, Header, HeaderError, HEADER_START_TIME_UNIX_MS, USER_AGENT};
use cb_pbs::metrics::MetricsRecorder;
use cb_pbs::mev_boost::{
    check_proposers_slot, check_winner, duty_headers, get_proposer_duties_url, DutyCheckError,
    RequestContext, INVALID_HEADER, NO_RELAY_RESPONSE,
};
use cb_pbs::outcome::RelayReply;
use cb_pbs::proposer::{BlsPublicKey, GetProposerEpochResponse, ProposerSlot, Version, VersionedResponse};
use cb_pbs::relay::{Relay, RelaySet};
use cb_pbs::routes::{
    check_requested, handle_check_proposers_slot, BuilderEvent, PbsClientError, NO_RESPONSE,
    STATUS_OK, STATUS_SERVICE_UNAVAILABLE,
};

const DUTIES: EndpointTag = EndpointTag::GetProposerDuties;

fn pk1() -> BlsPublicKey {
    BlsPublicKey::repeat_byte(0x11)
}

fn pk2() -> BlsPublicKey {
    BlsPublicKey::repeat_byte(0x22)
}

fn relay(id: &str) -> Relay {
    Relay { id: id.to_string(), base_url: format!("https://{id}.example") }
}

fn duties(key: BlsPublicKey, slot: u64) -> GetProposerEpochResponse {
    VersionedResponse {
        version: Version::Deneb,
        data: vec![ProposerSlot { pub_key: key, validator_index: 3, slot }],
    }
}

fn answered(status_code: u16, body: &[u8], latency_micros: u64) -> RelayReply {
    RelayReply::Answered { status_code, body: body.to_vec(), latency_micros }
}

fn context(slot: u64) -> RequestContext {
    RequestContext { slot, request_id: 0x0123_4567_89ab_cdef }
}

fn pairs(headers: &[Header]) -> Vec<(&str, &str)> {
    headers.iter().map(|h| (h.name.as_str(), h.value.as_str())).collect()
}

/// Relay A answers 200 with PK1 at slot 100 after 10 ms, relay B times out at
/// 50 ms, relay C answers 404 after 5 ms. The results are in the order of
/// arrival: C, A, B.
fn three_relays(
    recorder: &mut MetricsRecorder,
) -> Vec<Result<GetProposerEpochResponse, PbsError>> {
    let c = get_proposer_duties_url(&relay("c"), answered(404, b"no duties", 5_000), None, recorder);
    let a = get_proposer_duties_url(
        &relay("a"),
        answered(200, b"{}", 10_000),
        Some(duties(pk1(), 100)),
        recorder,
    );
    let b = get_proposer_duties_url(&relay("b"), RelayReply::TimedOut, None, recorder);
    vec![c, a, b]
}

#[test]
fn duties_of_a_success_are_handed_out() {
    let mut recorder = MetricsRecorder::new();
    let res = get_proposer_duties_url(
        &relay("a"),
        answered(200, b"{}", 10_000),
        Some(duties(pk1(), 100)),
        &mut recorder,
    );
    let got = res.ok().unwrap();
    assert_eq!(got.version, Version::Deneb);
    assert_eq!(got.data.len(), 1);
    assert_eq!(got.data[0].pub_key.0, [0x11u8; 48]);
    assert_eq!(got.data[0].validator_index, 3);
    assert_eq!(got.data[0].slot, 100);
    assert_eq!(recorder.status_count(200, DUTIES, "a"), 1);
    assert_eq!(recorder.latencies_of(DUTIES, "a"), vec![10_000]);
}

#[test]
fn a_success_that_does_not_decode_is_a_failure() {
    let mut recorder = MetricsRecorder::new();
    let res = get_proposer_duties_url(&relay("a"), answered(200, b"<html>", 7), None, &mut recorder);
    assert!(matches!(res, Err(PbsError::JsonDecode)));
    assert_eq!(recorder.status_count(200, DUTIES, "a"), 1);
    assert_eq!(recorder.latencies_of(DUTIES, "a"), vec![7]);
}

#[test]
fn an_error_status_keeps_the_relays_words_and_code() {
    let mut recorder = MetricsRecorder::new();
    let res = get_proposer_duties_url(
        &relay("c"),
        answered(404, b"no duties here", 5_000),
        Some(duties(pk1(), 100)),
        &mut recorder,
    );
    match res {
        Err(PbsError::RelayResponse { error_msg, code }) => {
            assert_eq!(error_msg, "no duties here");
            assert_eq!(code, 404);
        }
        other => panic!("unexpected result {other:?}"),
    }
    assert_eq!(recorder.status_count(404, DUTIES, "c"), 1);
    assert_eq!(recorder.latencies_of(DUTIES, "c"), vec![5_000]);
}

#[test]
fn an_error_body_that_is_no_text_is_replaced_where_it_breaks() {
    let mut recorder = MetricsRecorder::new();
    let res = get_proposer_duties_url(
        &relay("c"),
        answered(500, &[b'o', b'h', 0xff, b'!'], 1),
        None,
        &mut recorder,
    );
    match res {
        Err(PbsError::RelayResponse { error_msg, code }) => {
            assert_eq!(error_msg, "oh\u{fffd}!");
            assert_eq!(code, 500);
        }
        other => panic!("unexpected result {other:?}"),
    }
}

#[test]
fn a_call_without_answer_fails_and_is_counted_under_555() {
    let mut recorder = MetricsRecorder::new();
    let res = get_proposer_duties_url(&relay("b"), RelayReply::TimedOut, None, &mut recorder);
    assert!(matches!(res, Err(PbsError::Timeout)));
    let res = get_proposer_duties_url(
        &relay("b"),
        RelayReply::Unreachable,
        Some(duties(pk1(), 100)),
        &mut recorder,
    );
    assert!(matches!(res, Err(PbsError::Transport)));
    assert_eq!(recorder.status_count(555, DUTIES, "b"), 2);
    assert_eq!(recorder.observations(), 2);
    assert!(recorder.latencies_of(DUTIES, "b").is_empty());
}

#[test]
fn three_relays_right_claim_passes_on_relay_a() {
    let mut recorder = MetricsRecorder::new();
    let arrivals = three_relays(&mut recorder);
    assert!(check_proposers_slot(vec![pk1()], &context(100), arrivals).is_ok());
    assert_eq!(recorder.status_count(404, DUTIES, "c"), 1);
    assert_eq!(recorder.status_count(200, DUTIES, "a"), 1);
    assert_eq!(recorder.status_count(555, DUTIES, "b"), 1);
    assert_eq!(recorder.observations(), 3);
}

#[test]
fn three_relays_right_claim_passes_in_any_order_of_the_failures() {
    let mut recorder = MetricsRecorder::new();
    let mut arrivals = three_relays(&mut recorder);
    arrivals.swap(0, 2);
    assert!(check_proposers_slot(vec![pk1()], &context(100), arrivals).is_ok());
    let mut arrivals = three_relays(&mut recorder);
    arrivals.swap(0, 1);
    assert!(check_proposers_slot(vec![pk1()], &context(100), arrivals).is_ok());
}

#[test]
fn three_relays_streamed_through_the_race() {
    let set = RelaySet::new(vec![relay("a"), relay("b"), relay("c")]).ok().unwrap();
    let mut recorder = MetricsRecorder::new();
    let mut arrivals = three_relays(&mut recorder).into_iter();
    let mut machine = Race::new(&set);
    assert!(matches!(machine.on_result(arrivals.next().unwrap()), RaceStep::Pending));
    let winner = match machine.on_result(arrivals.next().unwrap()) {
        RaceStep::Won(duties) => duties,
        other => panic!("unexpected step {other:?}"),
    };
    assert!(matches!(machine.on_result(arrivals.next().unwrap()), RaceStep::Ignored));
    assert!(check_winner(RaceVerdict::Won(winner), vec![pk1()], 100).is_ok());
}

#[test]
fn three_relays_wrong_slot_is_proposer_not_found() {
    let mut recorder = MetricsRecorder::new();
    let arrivals = three_relays(&mut recorder);
    let err = check_proposers_slot(vec![pk1()], &context(101), arrivals).unwrap_err();
    assert!(matches!(err, DutyCheckError::ProposerNotFound(_)));
    assert_eq!(err.to_string(), "Proposer not found: Proposer not found");
}

#[test]
fn three_relays_wrong_key_is_proposer_not_found() {
    let mut recorder = MetricsRecorder::new();
    let arrivals = three_relays(&mut recorder);
    let err = check_proposers_slot(vec![pk2()], &context(100), arrivals).unwrap_err();
    assert!(matches!(err, DutyCheckError::ProposerNotFound(_)));
}

#[test]
fn three_failing_relays_is_no_relay_response() {
    let mut recorder = MetricsRecorder::new();
    let arrivals = vec![
        get_proposer_duties_url(&relay("c"), answered(404, b"", 5_000), None, &mut recorder),
        get_proposer_duties_url(&relay("a"), answered(500, b"", 10_000), None, &mut recorder),
        get_proposer_duties_url(&relay("b"), answered(503, b"", 50_000), None, &mut recorder),
    ];
    let err = check_proposers_slot(vec![pk1()], &context(100), arrivals).unwrap_err();
    assert!(matches!(err, DutyCheckError::NoRelayResponse));
    assert_eq!(err.to_string(), "No relay returned get_proposer_duties successfully");
    assert_eq!(NO_RELAY_RESPONSE, "No relay returned get_proposer_duties successfully");
    assert_eq!(recorder.observations(), 3);
    assert_eq!(recorder.status_count(404, DUTIES, "c"), 1);
    assert_eq!(recorder.status_count(500, DUTIES, "a"), 1);
    assert_eq!(recorder.status_count(503, DUTIES, "b"), 1);
    assert_eq!(recorder.status_count(200, DUTIES, "a"), 0);
}

#[test]
fn every_relay_timing_out_is_no_relay_response_with_one_555_each() {
    let mut recorder = MetricsRecorder::new();
    let arrivals = vec![
        get_proposer_duties_url(&relay("a"), RelayReply::TimedOut, None, &mut recorder),
        get_proposer_duties_url(&relay("b"), RelayReply::TimedOut, None, &mut recorder),
        get_proposer_duties_url(&relay("c"), RelayReply::Unreachable, None, &mut recorder),
    ];
    let err = check_proposers_slot(vec![pk1()], &context(100), arrivals).unwrap_err();
    assert!(matches!(err, DutyCheckError::NoRelayResponse));
    assert_eq!(recorder.status_count(555, DUTIES, "a"), 1);
    assert_eq!(recorder.status_count(555, DUTIES, "b"), 1);
    assert_eq!(recorder.status_count(555, DUTIES, "c"), 1);
    assert_eq!(recorder.observations(), 3);
}

#[test]
fn the_first_success_decides_even_if_a_later_one_would_match() {
    let arrivals = vec![Ok(duties(pk2(), 100)), Ok(duties(pk1(), 100))];
    let err = check_proposers_slot(vec![pk1()], &context(100), arrivals).unwrap_err();
    assert!(matches!(err, DutyCheckError::ProposerNotFound(_)));
    let arrivals = vec![Ok(duties(pk1(), 100)), Ok(duties(pk2(), 100))];
    assert!(check_proposers_slot(vec![pk1()], &context(100), arrivals).is_ok());
}

#[test]
fn a_check_without_results_is_no_relay_response() {
    let err = check_proposers_slot(vec![pk1()], &context(100), vec![]).unwrap_err();
    assert!(matches!(err, DutyCheckError::NoRelayResponse));
}

#[test]
fn check_winner_on_each_verdict() {
    assert!(check_winner(RaceVerdict::Won(duties(pk1(), 5)), vec![pk1()], 5).is_ok());
    assert!(matches!(
        check_winner(RaceVerdict::Won(duties(pk1(), 5)), vec![pk1()], 6),
        Err(DutyCheckError::ProposerNotFound(_))
    ));
    assert!(matches!(
        check_winner(RaceVerdict::AllFailed, vec![pk1()], 5),
        Err(DutyCheckError::NoRelayResponse)
    ));
}

#[test]
fn headers_carry_the_start_time_in_decimal() {
    let headers = send_headers(1_700_000_000_123, None).ok().unwrap();
    assert_eq!(pairs(&headers), vec![("X-MEVBoost-StartTimeUnixMS", "1700000000123")]);
    assert_eq!(HEADER_START_TIME_UNIX_MS, "X-MEVBoost-StartTimeUnixMS");
    let headers = send_headers(0, None).ok().unwrap();
    assert_eq!(pairs(&headers), vec![("X-MEVBoost-StartTimeUnixMS", "0")]);
    let headers = send_headers(u64::MAX, None).ok().unwrap();
    assert_eq!(pairs(&headers), vec![("X-MEVBoost-StartTimeUnixMS", "18446744073709551615")]);
}

#[test]
fn headers_carry_the_user_agent_if_there_is_one() {
    let headers = send_headers(42, Some("lighthouse/5.1".to_string())).ok().unwrap();
    assert_eq!(
        pairs(&headers),
        vec![("X-MEVBoost-StartTimeUnixMS", "42"), ("user-agent", "lighthouse/5.1")]
    );
    assert_eq!(USER_AGENT, "user-agent");
}

#[test]
fn user_agent_may_hold_tabs_spaces_and_bytes_above_ascii() {
    assert!(send_headers(1, Some("a\tb c".to_string())).is_ok());
    assert!(send_headers(1, Some("caf\u{e9} \u{1f600}".to_string())).is_ok());
    assert!(send_headers(1, Some(String::new())).is_ok());
    assert!(send_headers(1, Some("~".to_string())).is_ok());
}

#[test]
fn user_agent_with_a_control_byte_is_refused() {
    assert!(matches!(
        send_headers(1, Some("bad\nagent".to_string())),
        Err(HeaderError::InvalidUserAgent)
    ));
    assert!(matches!(send_headers(1, Some("\u{7f}".to_string())), Err(HeaderError::InvalidUserAgent)));
    assert!(matches!(send_headers(1, Some("\u{0}".to_string())), Err(HeaderError::InvalidUserAgent)));
    assert!(matches!(send_headers(1, Some("a\u{1f}".to_string())), Err(HeaderError::InvalidUserAgent)));
    assert!(matches!(send_headers(1, Some("a\r".to_string())), Err(HeaderError::InvalidUserAgent)));
}

#[test]
fn duty_headers_are_the_send_headers() {
    let headers = duty_headers(1_700_000_000_123, Some("teku".to_string())).ok().unwrap();
    assert_eq!(
        pairs(&headers),
        vec![("X-MEVBoost-StartTimeUnixMS", "1700000000123"), ("user-agent", "teku")]
    );
    let headers = duty_headers(7, None).ok().unwrap();
    assert_eq!(pairs(&headers), vec![("X-MEVBoost-StartTimeUnixMS", "7")]);
}

#[test]
fn duty_headers_refuse_a_user_agent_with_a_line_break() {
    let err = duty_headers(7, Some("te\nku".to_string())).unwrap_err();
    assert!(matches!(err, DutyCheckError::InvalidHeader(HeaderError::InvalidUserAgent)));
    assert_eq!(err.to_string(), "failed to parse header value");
    assert_eq!(INVALID_HEADER, "failed to parse header value");
}

#[test]
fn handler_answers_no_response_when_the_headers_are_refused() {
    let check = duty_headers(7, Some("\u{7f}".to_string())).map(|_| ());
    let reply = handle_check_proposers_slot(check);
    assert_eq!(reply.event, BuilderEvent::CheckProposersSlotError);
    assert_eq!(reply.status_code, 503);
    assert_eq!(reply.error, Some(PbsClientError::NoResponse));
    assert!(matches!(reply.cause, Some(DutyCheckError::InvalidHeader(_))));
}

#[test]
fn handler_publishes_the_request_first() {
    assert_eq!(check_requested(), BuilderEvent::CheckProposersSlot);
}

#[test]
fn handler_answers_200_when_the_check_passes() {
    let reply = handle_check_proposers_slot(Ok(()));
    assert_eq!(reply.event, BuilderEvent::CheckProposersSlotResponse);
    assert_eq!(reply.status_code, 200);
    assert_eq!(reply.status_code, STATUS_OK);
    assert!(reply.error.is_none());
    assert!(reply.cause.is_none());
}

#[test]
fn handler_answers_no_response_when_no_relay_answered() {
    let reply = handle_check_proposers_slot(Err(DutyCheckError::NoRelayResponse));
    assert_eq!(reply.event, BuilderEvent::CheckProposersSlotError);
    assert_eq!(reply.status_code, 503);
    assert_eq!(reply.status_code, STATUS_SERVICE_UNAVAILABLE);
    assert_eq!(reply.error, Some(PbsClientError::NoResponse));
    assert!(matches!(reply.cause, Some(DutyCheckError::NoRelayResponse)));
}

#[test]
fn handler_keeps_the_cause_of_a_refuted_claim_apart() {
    let check = check_winner(RaceVerdict::Won(duties(pk1(), 100)), vec![pk1()], 101);
    let reply = handle_check_proposers_slot(check);
    assert_eq!(reply.event, BuilderEvent::CheckProposersSlotError);
    assert_eq!(reply.status_code, 503);
    assert_eq!(reply.error, Some(PbsClientError::NoResponse));
    assert!(matches!(reply.cause, Some(DutyCheckError::ProposerNotFound(_))));
}

#[test]
fn client_error_status_and_words() {
    assert_eq!(PbsClientError::NoResponse.status_code(), 503);
    assert_eq!(PbsClientError::NoResponse.message(), "no response from relays");
    assert_eq!(NO_RESPONSE, "no response from relays");
}
