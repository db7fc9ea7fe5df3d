//! The record of what the relay calls came to: one counter per relay,
//! endpoint and status code, and the latencies of the answers.

use vstd::prelude::*;
use vstd::multiset::Multiset;
use crate::constants::EndpointTag;
use crate::outcome::{counted_status, observed_latency, EndpointOutcome, EndpointOutcomeView};

verus! {

/// What a status counter is keyed by.
pub struct StatusKey {
    pub status_code: u16,
    pub endpoint: EndpointTag,
    pub relay_id: Seq<char>,
}

/// One latency that was observed for an answer.
pub struct LatencySample {
    pub endpoint: EndpointTag,
    pub relay_id: Seq<char>,
    pub latency_micros: u64,
}

struct StatusObservation {
    status_code: u16,
    endpoint: EndpointTag,
    relay_id: String,
}

struct LatencyObservation {
    endpoint: EndpointTag,
    relay_id: String,
    latency_micros: u64,
}

impl View for StatusObservation {
    type V = StatusKey;

    closed spec fn view(&self) -> StatusKey {
        StatusKey { status_code: self.status_code, endpoint: self.endpoint, relay_id: self.relay_id@ }
    }
}

impl View for LatencyObservation {
    type V = LatencySample;

    closed spec fn view(&self) -> LatencySample {
        LatencySample {
            endpoint: self.endpoint,
            relay_id: self.relay_id@,
            latency_micros: self.latency_micros,
        }
    }
}

/// Collects the observations of the relay calls of a process.
pub struct MetricsRecorder {
    statuses: Vec<StatusObservation>,
    latencies: Vec<LatencyObservation>,
}

/// The key under which an outcome is counted.
pub open spec fn status_key(
    endpoint: EndpointTag,
    relay_id: Seq<char>,
    outcome: EndpointOutcomeView,
) -> StatusKey {
    StatusKey { status_code: counted_status(outcome), endpoint, relay_id }
}

/// The latency log after an outcome was recorded: longer by the latency of an
/// answer, unchanged where no answer came.
pub open spec fn with_latency(
    log: Seq<LatencySample>,
    endpoint: EndpointTag,
    relay_id: Seq<char>,
    outcome: EndpointOutcomeView,
) -> Seq<LatencySample> {
    match observed_latency(outcome) {
        Some(latency_micros) => log.push(LatencySample { endpoint, relay_id, latency_micros }),
        None => log,
    }
}

impl MetricsRecorder {
    /// The keys that were counted, in the order of the calls.
    pub closed spec fn status_log(&self) -> Seq<StatusKey> {
        self.statuses@.map_values(|o: StatusObservation| o@)
    }

    /// The latencies that were observed, in the order of the calls.
    pub closed spec fn latency_log(&self) -> Seq<LatencySample> {
        self.latencies@.map_values(|o: LatencyObservation| o@)
    }

    /// The counters: how often each key was counted.
    pub open spec fn counters(&self) -> Multiset<StatusKey> {
        self.status_log().to_multiset()
    }

    /// A recorder that has seen nothing.
    pub fn new() -> (recorder: MetricsRecorder)
        ensures
            recorder.status_log() == Seq::<StatusKey>::empty(),
            recorder.latency_log() == Seq::<LatencySample>::empty(),
    {
        MetricsRecorder { statuses: Vec::new(), latencies: Vec::new() }
    }

    /// Records one outcome: its status code is counted once, under the
    /// reserved code where no answer came, and the latency of an answer is
    /// observed.
    pub fn record(&mut self, endpoint: EndpointTag, relay_id: &str, outcome: &EndpointOutcome)
        ensures
            final(self).status_log() == old(self).status_log().push(
                status_key(endpoint, relay_id@, outcome@),
            ),
            final(self).counters() == old(self).counters().insert(
                status_key(endpoint, relay_id@, outcome@),
            ),
            final(self).latency_log() == with_latency(
                old(self).latency_log(),
                endpoint,
                relay_id@,
                outcome@,
            ),
    {
        let ghost old_statuses = self.status_log();
        let ghost old_latencies = self.latency_log();
        let status_code = outcome.status_code();
        self.statuses.push(StatusObservation { status_code, endpoint, relay_id: relay_id.to_owned() });
        match outcome.latency_micros() {
            Some(latency_micros) => {
                self.latencies.push(
                    LatencyObservation { endpoint, relay_id: relay_id.to_owned(), latency_micros },
                );
            },
            None => {},
        }
        proof {
            let key = status_key(endpoint, relay_id@, outcome@);
            assert(self.status_log() =~= old_statuses.push(key));
            assert(self.latency_log() =~= with_latency(old_latencies, endpoint, relay_id@, outcome@));
            vstd::seq_lib::to_multiset_build(old_statuses, key);
        }
    }

    /// How often a status code was counted for an endpoint of a relay.
    pub fn status_count(&self, status_code: u16, endpoint: EndpointTag, relay_id: &str) -> (n: usize)
        ensures
            n == self.counters().count(StatusKey { status_code, endpoint, relay_id: relay_id@ }),
    {
        let ghost key = StatusKey { status_code, endpoint, relay_id: relay_id@ };
        let ghost log = self.status_log();
        let wanted_id = relay_id.to_owned();
        let mut n: usize = 0;
        let mut i: usize = 0;
        proof {
            assert(log.take(0) =~= Seq::<StatusKey>::empty());
            Seq::<StatusKey>::empty().to_multiset_ensures();
        }
        while i < self.statuses.len()
            invariant
                0 <= i <= self.statuses.len(),
                log == self.status_log(),
                log.len() == self.statuses.len(),
                key == (StatusKey { status_code, endpoint, relay_id: relay_id@ }),
                wanted_id@ == relay_id@,
                n <= i,
                n == log.take(i as int).to_multiset().count(key),
            decreases self.statuses.len() - i,
        {
            let seen = &self.statuses[i];
            proof {
                assert(log.take(i + 1) =~= log.take(i as int).push(log[i as int]));
                vstd::seq_lib::to_multiset_build(log.take(i as int), log[i as int]);
                assert(log[i as int] == seen@);
            }
            if seen.status_code == status_code && seen.endpoint == endpoint && seen.relay_id == wanted_id {
                assert(seen@ == key);
                n += 1;
            } else {
                assert(seen@ != key);
            }
            i += 1;
        }
        proof {
            assert(log.take(i as int) =~= log);
        }
        n
    }

    /// How many outcomes were recorded.
    pub fn observations(&self) -> (n: usize)
        ensures
            n == self.status_log().len(),
            n == self.counters().len(),
    {
        proof {
            self.status_log().to_multiset_ensures();
        }
        self.statuses.len()
    }

    /// The latencies that were observed for an endpoint of a relay, in the
    /// order of the calls.
    pub fn latencies_of(&self, endpoint: EndpointTag, relay_id: &str) -> (found: Vec<u64>)
        ensures
            found@ == self.latency_log().filter(
                |s: LatencySample| s.endpoint == endpoint && s.relay_id == relay_id@,
            ).map_values(|s: LatencySample| s.latency_micros),
    {
        let ghost log = self.latency_log();
        let ghost wanted = |s: LatencySample| s.endpoint == endpoint && s.relay_id == relay_id@;
        let ghost micros = |s: LatencySample| s.latency_micros;
        let wanted_id = relay_id.to_owned();
        let mut found: Vec<u64> = Vec::new();
        let mut i: usize = 0;
        proof {
            assert(log.take(0) =~= Seq::<LatencySample>::empty());
            assert(log.take(0).filter(wanted) =~= Seq::<LatencySample>::empty()) by {
                reveal(Seq::filter);
            }
        }
        while i < self.latencies.len()
            invariant
                0 <= i <= self.latencies.len(),
                log == self.latency_log(),
                log.len() == self.latencies.len(),
                wanted == (|s: LatencySample| s.endpoint == endpoint && s.relay_id == relay_id@),
                micros == (|s: LatencySample| s.latency_micros),
                wanted_id@ == relay_id@,
                found@ == log.take(i as int).filter(wanted).map_values(micros),
            decreases self.latencies.len() - i,
        {
            let seen = &self.latencies[i];
            proof {
                assert(log.take(i + 1) =~= log.take(i as int).push(log[i as int]));
                assert(log.take(i + 1).drop_last() =~= log.take(i as int));
                assert(log[i as int] == seen@);
                reveal(Seq::filter);
            }
            if seen.endpoint == endpoint && seen.relay_id == wanted_id {
                found.push(seen.latency_micros);
                assert(found@ =~= log.take(i + 1).filter(wanted).map_values(micros));
            }
            i += 1;
        }
        proof {
            assert(log.take(i as int) =~= log);
        }
        found
    }
}

/// Counting a key twice raises its counter by exactly two and leaves every
/// other counter as it was; no counter ever falls when a key is counted.
pub proof fn lemma_counted_twice(counters: Multiset<StatusKey>, key: StatusKey, other: StatusKey)
    ensures
        counters.insert(key).count(key) == counters.count(key) + 1,
        counters.insert(key).insert(key).count(key) == counters.count(key) + 2,
        other != key ==> counters.insert(key).insert(key).count(other) == counters.count(other),
        counters.insert(key).count(other) >= counters.count(other),
{
}

/// A call that got no answer is counted once under the reserved status
/// code, and no latency is observed for it.
pub proof fn lemma_unanswered_counted_once(
    counters: Multiset<StatusKey>,
    latencies: Seq<LatencySample>,
    endpoint: EndpointTag,
    relay_id: Seq<char>,
    outcome: EndpointOutcomeView,
)
    requires
        outcome is Timeout || outcome is TransportError,
    ensures
        status_key(endpoint, relay_id, outcome) == (StatusKey {
            status_code: crate::constants::TIMEOUT_ERROR_CODE,
            endpoint,
            relay_id,
        }),
        counters.insert(status_key(endpoint, relay_id, outcome)).count(
            StatusKey { status_code: crate::constants::TIMEOUT_ERROR_CODE, endpoint, relay_id },
        ) == counters.count(
            StatusKey { status_code: crate::constants::TIMEOUT_ERROR_CODE, endpoint, relay_id },
        ) + 1,
        with_latency(latencies, endpoint, relay_id, outcome) == latencies,
{
}

/// The status log after the outcomes of one call to each of several relays
/// were recorded, one after the other: longer by one key for each call.
pub open spec fn log_after_calls(
    log: Seq<StatusKey>,
    endpoint: EndpointTag,
    relay_ids: Seq<Seq<char>>,
    outcomes: Seq<EndpointOutcomeView>,
) -> Seq<StatusKey>
    decreases outcomes.len(),
{
    if outcomes.len() == 0 || relay_ids.len() != outcomes.len() {
        log
    } else {
        log_after_calls(log, endpoint, relay_ids.drop_last(), outcomes.drop_last()).push(
            status_key(endpoint, relay_ids.last(), outcomes.last()),
        )
    }
}

/// Where every relay of a set is called once, each relay that gave no answer
/// has exactly one more observation under the reserved status code than it
/// had before, whatever the other relays came to.
pub proof fn lemma_one_observation_per_unanswered_relay(
    log: Seq<StatusKey>,
    endpoint: EndpointTag,
    relay_ids: Seq<Seq<char>>,
    outcomes: Seq<EndpointOutcomeView>,
    relay: int,
)
    requires
        relay_ids.no_duplicates(),
        relay_ids.len() == outcomes.len(),
        0 <= relay < outcomes.len(),
        outcomes[relay] is Timeout || outcomes[relay] is TransportError,
    ensures
        log_after_calls(log, endpoint, relay_ids, outcomes).len() == log.len() + outcomes.len(),
        log_after_calls(log, endpoint, relay_ids, outcomes).to_multiset().count(
            StatusKey {
                status_code: crate::constants::TIMEOUT_ERROR_CODE,
                endpoint,
                relay_id: relay_ids[relay],
            },
        ) == log.to_multiset().count(
            StatusKey {
                status_code: crate::constants::TIMEOUT_ERROR_CODE,
                endpoint,
                relay_id: relay_ids[relay],
            },
        ) + 1,
{
    let key = StatusKey {
        status_code: crate::constants::TIMEOUT_ERROR_CODE,
        endpoint,
        relay_id: relay_ids[relay],
    };
    lemma_count_after_calls(log, endpoint, relay_ids, outcomes, key);
    lemma_one_call_of(endpoint, relay_ids, outcomes, relay);
}

/// How often `key` is counted among the calls at positions below `upto`.
spec fn calls_under(
    endpoint: EndpointTag,
    relay_ids: Seq<Seq<char>>,
    outcomes: Seq<EndpointOutcomeView>,
    key: StatusKey,
    upto: int,
) -> nat
    decreases upto,
{
    if upto <= 0 {
        0
    } else {
        calls_under(endpoint, relay_ids, outcomes, key, upto - 1) + if status_key(
            endpoint,
            relay_ids[upto - 1],
            outcomes[upto - 1],
        ) == key {
            1nat
        } else {
            0nat
        }
    }
}

proof fn lemma_count_after_calls(
    log: Seq<StatusKey>,
    endpoint: EndpointTag,
    relay_ids: Seq<Seq<char>>,
    outcomes: Seq<EndpointOutcomeView>,
    key: StatusKey,
)
    requires
        relay_ids.len() == outcomes.len(),
    ensures
        log_after_calls(log, endpoint, relay_ids, outcomes).len() == log.len() + outcomes.len(),
        log_after_calls(log, endpoint, relay_ids, outcomes).to_multiset().count(key)
            == log.to_multiset().count(key) + calls_under(
            endpoint,
            relay_ids,
            outcomes,
            key,
            outcomes.len() as int,
        ),
    decreases outcomes.len(),
{
    if outcomes.len() > 0 {
        let ids = relay_ids.drop_last();
        let outs = outcomes.drop_last();
        lemma_count_after_calls(log, endpoint, ids, outs, key);
        lemma_calls_under_prefix(endpoint, relay_ids, outcomes, key, outs.len() as int);
        vstd::seq_lib::to_multiset_build(
            log_after_calls(log, endpoint, ids, outs),
            status_key(endpoint, relay_ids.last(), outcomes.last()),
        );
    }
}

/// The count below `upto` looks at the calls below `upto` only.
proof fn lemma_calls_under_prefix(
    endpoint: EndpointTag,
    relay_ids: Seq<Seq<char>>,
    outcomes: Seq<EndpointOutcomeView>,
    key: StatusKey,
    upto: int,
)
    requires
        relay_ids.len() == outcomes.len(),
        0 <= upto < outcomes.len(),
    ensures
        calls_under(endpoint, relay_ids.drop_last(), outcomes.drop_last(), key, upto)
            == calls_under(endpoint, relay_ids, outcomes, key, upto),
    decreases upto,
{
    if upto > 0 {
        lemma_calls_under_prefix(endpoint, relay_ids, outcomes, key, upto - 1);
    }
}

/// Among calls to relays of different ids, the key of an unanswered call is
/// counted for that call and for no other.
proof fn lemma_one_call_of(
    endpoint: EndpointTag,
    relay_ids: Seq<Seq<char>>,
    outcomes: Seq<EndpointOutcomeView>,
    relay: int,
)
    requires
        relay_ids.no_duplicates(),
        relay_ids.len() == outcomes.len(),
        0 <= relay < outcomes.len(),
        outcomes[relay] is Timeout || outcomes[relay] is TransportError,
    ensures
        calls_under(
            endpoint,
            relay_ids,
            outcomes,
            StatusKey {
                status_code: crate::constants::TIMEOUT_ERROR_CODE,
                endpoint,
                relay_id: relay_ids[relay],
            },
            outcomes.len() as int,
        ) == 1,
{
    let key = StatusKey {
        status_code: crate::constants::TIMEOUT_ERROR_CODE,
        endpoint,
        relay_id: relay_ids[relay],
    };
    lemma_calls_under_steps(endpoint, relay_ids, outcomes, key, relay, outcomes.len() as int);
}

proof fn lemma_calls_under_steps(
    endpoint: EndpointTag,
    relay_ids: Seq<Seq<char>>,
    outcomes: Seq<EndpointOutcomeView>,
    key: StatusKey,
    relay: int,
    upto: int,
)
    requires
        relay_ids.no_duplicates(),
        relay_ids.len() == outcomes.len(),
        0 <= relay < outcomes.len(),
        0 <= upto <= outcomes.len(),
        key == status_key(endpoint, relay_ids[relay], outcomes[relay]),
    ensures
        calls_under(endpoint, relay_ids, outcomes, key, upto) == if upto <= relay {
            0nat
        } else {
            1nat
        },
    decreases upto,
{
    if upto > 0 {
        lemma_calls_under_steps(endpoint, relay_ids, outcomes, key, relay, upto - 1);
        if upto - 1 != relay {
            assert(relay_ids[upto - 1] != relay_ids[relay]);
        }
    }
}

} // verus!
