//! The two ways of aggregating the replies of a relay set: the race, which the
//! first success decides, and the broadcast, which waits for every relay.

use vstd::prelude::*;
use crate::constants::EndpointTag;
use crate::error::PbsError;
use crate::metrics::{status_key, with_latency, MetricsRecorder};
use crate::outcome::{classified, EndpointOutcome, RelayReply};
use crate::relay::{Relay, RelaySet};

verus! {

/// Settles one relay call: the reply is classified, and the outcome is
/// recorded before it is handed back.
pub fn settle(
    relay: &Relay,
    endpoint: EndpointTag,
    reply: RelayReply,
    recorder: &mut MetricsRecorder,
) -> (outcome: EndpointOutcome)
    ensures
        outcome@ == classified(reply@),
        final(recorder).status_log() == old(recorder).status_log().push(
            status_key(endpoint, relay.id@, outcome@),
        ),
        final(recorder).counters() == old(recorder).counters().insert(
            status_key(endpoint, relay.id@, outcome@),
        ),
        final(recorder).latency_log() == with_latency(
            old(recorder).latency_log(),
            endpoint,
            relay.id@,
            outcome@,
        ),
{
    let outcome = EndpointOutcome::classify(reply);
    recorder.record(endpoint, relay.id.as_str(), &outcome);
    outcome
}

/// Where a race stands: how many relays have not been heard from, and whether
/// the race is over.
pub struct RaceState {
    pub remaining: nat,
    pub decided: bool,
}

/// A race among the calls to the relays of a set. The driver starts every
/// call, then hands each result over as it arrives.
#[derive(Debug)]
pub struct Race {
    remaining: usize,
    decided: bool,
}

/// What the driver of a race does after a result arrived.
#[derive(Debug)]
pub enum RaceStep<T> {
    /// The relay failed and others are still out: go on waiting.
    Pending,
    /// The first success: the race is over and the other calls are abandoned.
    Won(T),
    /// The last relay failed as all the others did: the race is over.
    Lost,
    /// The race was over before this result arrived: it changes nothing.
    Ignored,
}

/// What a race came to.
#[derive(Debug)]
pub enum RaceVerdict<T> {
    /// The payload of the first relay that succeeded.
    Won(T),
    /// No relay succeeded.
    AllFailed,
}

/// The race after a result arrived, and what the driver does next.
pub open spec fn race_step<T>(
    state: RaceState,
    arrival: Result<T, PbsError>,
) -> (RaceState, RaceStep<T>) {
    if state.decided || state.remaining == 0 {
        (state, RaceStep::Ignored)
    } else {
        match arrival {
            Ok(payload) => (RaceState { remaining: state.remaining, decided: true }, RaceStep::Won(payload)),
            Err(_) => if state.remaining == 1 {
                (RaceState { remaining: 0, decided: true }, RaceStep::Lost)
            } else {
                (RaceState { remaining: (state.remaining - 1) as nat, decided: false }, RaceStep::Pending)
            },
        }
    }
}

/// Whether the result at `position` is the first success among `arrivals`,
/// which are in the order in which they arrived.
pub open spec fn wins<T>(arrivals: Seq<Result<T, PbsError>>, position: int) -> bool {
    &&& 0 <= position < arrivals.len()
    &&& arrivals[position] is Ok
    &&& forall|earlier: int| 0 <= earlier < position ==> (#[trigger] arrivals[earlier]) is Err
}

/// Whether every result among `arrivals` is a failure.
pub open spec fn all_failed<T>(arrivals: Seq<Result<T, PbsError>>) -> bool {
    forall|position: int| 0 <= position < arrivals.len() ==> (#[trigger] arrivals[position]) is Err
}

/// Whether `verdict` is what a race over `arrivals` comes to: the payload of
/// the first success, or a failure where there is none.
pub open spec fn race_verdict<T>(arrivals: Seq<Result<T, PbsError>>, verdict: RaceVerdict<T>) -> bool {
    match verdict {
        RaceVerdict::Won(payload) => exists|position: int| #[trigger]
            wins(arrivals, position) && arrivals[position] == Ok::<T, PbsError>(payload),
        RaceVerdict::AllFailed => all_failed(arrivals),
    }
}

impl View for Race {
    type V = RaceState;

    closed spec fn view(&self) -> RaceState {
        RaceState { remaining: self.remaining as nat, decided: self.decided }
    }
}

impl Race {
    /// A race among the relays of a set: all of them are still out.
    pub fn new(relays: &RelaySet) -> (race: Race)
        ensures
            race@ == (RaceState { remaining: relays@.len(), decided: false }),
            race@.remaining > 0,
    {
        Race { remaining: relays.len(), decided: false }
    }

    /// Whether the race is over.
    pub fn is_decided(&self) -> (over: bool)
        ensures
            over == (self@.decided || self@.remaining == 0),
    {
        self.decided || self.remaining == 0
    }

    /// Takes the result of one relay call. The first success wins the race;
    /// a failure is passed over unless it is the last relay's; whatever
    /// arrives after the race is over is ignored.
    pub fn on_result<T>(&mut self, arrival: Result<T, PbsError>) -> (step: RaceStep<T>)
        ensures
            (final(self)@, step) == race_step(old(self)@, arrival),
    {
        if self.decided || self.remaining == 0 {
            return RaceStep::Ignored;
        }
        match arrival {
            Ok(payload) => {
                self.decided = true;
                RaceStep::Won(payload)
            },
            Err(_) => {
                self.remaining = self.remaining - 1;
                if self.remaining == 0 {
                    self.decided = true;
                    RaceStep::Lost
                } else {
                    RaceStep::Pending
                }
            },
        }
    }
}

/// Runs a race over results that have all arrived, given in the order of
/// their arrival: the first success wins, whatever came after it.
pub fn race<T>(arrivals: Vec<Result<T, PbsError>>) -> (verdict: RaceVerdict<T>)
    ensures
        race_verdict(arrivals@, verdict),
        verdict is AllFailed <==> all_failed(arrivals@),
        forall|p: int| #[trigger]
            wins(arrivals@, p) ==> verdict == RaceVerdict::Won(arrivals@[p]->Ok_0),
{
    let ghost all = arrivals@;
    let mut rest = arrivals;
    let mut verdict: RaceVerdict<T> = RaceVerdict::AllFailed;
    while rest.len() > 0
        invariant
            rest@ == all.take(rest@.len() as int),
            rest@.len() <= all.len(),
            race_verdict(all.skip(rest@.len() as int), verdict),
        decreases rest.len(),
    {
        let ghost before = rest@.len() as int;
        let ghost earlier = verdict;
        let last = rest.pop();
        proof {
            assert(last == Some(all[before - 1]));
            assert(rest@ =~= all.take(before - 1));
            assert(all.skip(before - 1).skip(1) =~= all.skip(before));
        }
        match last {
            Some(Ok(payload)) => {
                verdict = RaceVerdict::Won(payload);
                assert(wins(all.skip(before - 1), 0));
            },
            _ => {
                proof {
                    lemma_failure_in_front(all.skip(before - 1), earlier);
                }
            },
        }
    }
    proof {
        assert(all.skip(0) =~= all);
        lemma_won_iff_some_success(all, verdict);
        assert forall|p: int| #[trigger] wins(all, p) implies verdict == RaceVerdict::Won(
            all[p]->Ok_0,
        ) by {
            lemma_verdict_unique(all, verdict, RaceVerdict::Won(all[p]->Ok_0));
        }
    }
    verdict
}

/// A failure that arrives before all the others does not change what the race
/// comes to.
pub proof fn lemma_failure_in_front<T>(arrivals: Seq<Result<T, PbsError>>, verdict: RaceVerdict<T>)
    requires
        arrivals.len() > 0,
        arrivals[0] is Err,
        race_verdict(arrivals.skip(1), verdict),
    ensures
        race_verdict(arrivals, verdict),
{
    let rest = arrivals.skip(1);
    match verdict {
        RaceVerdict::Won(payload) => {
            let position = choose|position: int| #[trigger]
                wins(rest, position) && rest[position] == Ok::<T, PbsError>(payload);
            assert forall|earlier: int| 0 <= earlier < position + 1 implies (
            #[trigger] arrivals[earlier]) is Err by {
                if earlier > 0 {
                    assert(rest[earlier - 1] is Err);
                }
            }
            assert(wins(arrivals, position + 1));
        },
        RaceVerdict::AllFailed => {
            assert forall|position: int| 0 <= position < arrivals.len() implies (
            #[trigger] arrivals[position]) is Err by {
                if position > 0 {
                    assert(rest[position - 1] is Err);
                }
            }
        },
    }
}

/// The outcome of the call to one relay of a set.
#[derive(Debug)]
pub struct RelayOutcome {
    /// The relay's position in the configured order.
    pub relay: usize,
    pub outcome: EndpointOutcome,
}

/// What the driver of a broadcast does after an outcome was handed in.
#[derive(Clone, Copy, Debug, PartialEq, Eq, Structural)]
pub enum BroadcastStep {
    /// Other relays are still out: go on waiting.
    Pending,
    /// Every relay has an outcome: the broadcast is complete.
    Complete,
    /// The outcome was not taken: the relay is none of the set, or it has
    /// an outcome already.
    Rejected,
}

/// Collects one outcome from every relay of a set, successes and failures
/// alike, in the order in which they arrive.
pub struct Broadcast {
    relay_count: usize,
    collected: Vec<RelayOutcome>,
}

/// The positions of the relays that outcomes belong to.
pub open spec fn relays_of(outcomes: Seq<RelayOutcome>) -> Seq<usize> {
    outcomes.map_values(|o: RelayOutcome| o.relay)
}

/// Whether `outcomes` holds exactly one outcome for each of `relay_count`
/// relays: as many outcomes as relays, each of a relay of the set, no two of
/// one relay.
pub open spec fn one_per_relay(outcomes: Seq<RelayOutcome>, relay_count: nat) -> bool {
    &&& outcomes.len() == relay_count
    &&& forall|i: int| 0 <= i < outcomes.len() ==> (#[trigger] outcomes[i]).relay < relay_count
    &&& relays_of(outcomes).no_duplicates()
}

impl Broadcast {
    /// The number of relays that the broadcast waits for.
    pub closed spec fn relay_count(&self) -> nat {
        self.relay_count as nat
    }

    /// The outcomes handed in so far, in the order of arrival.
    pub closed spec fn collected(&self) -> Seq<RelayOutcome> {
        self.collected@
    }

    #[verifier::type_invariant]
    closed spec fn well_formed(&self) -> bool {
        &&& self.collected@.len() <= self.relay_count
        &&& forall|i: int|
            0 <= i < self.collected@.len() ==> (#[trigger] self.collected@[i]).relay
                < self.relay_count
        &&& relays_of(self.collected@).no_duplicates()
    }

    /// A broadcast to the relays of a set: no outcome is in yet.
    pub fn new(relays: &RelaySet) -> (broadcast: Broadcast)
        ensures
            broadcast.relay_count() == relays@.len(),
            broadcast.collected() == Seq::<RelayOutcome>::empty(),
    {
        Broadcast { relay_count: relays.len(), collected: Vec::new() }
    }

    /// Whether every relay has an outcome.
    pub fn is_complete(&self) -> (complete: bool)
        ensures
            complete == (self.collected().len() == self.relay_count()),
            self.collected().len() <= self.relay_count(),
    {
        proof {
            use_type_invariant(self);
        }
        self.collected.len() == self.relay_count
    }

    /// Whether an outcome for the relay at `relay` is in.
    pub fn has_outcome(&self, relay: usize) -> (found: bool)
        ensures
            found == relays_of(self.collected()).contains(relay),
    {
        let mut i: usize = 0;
        while i < self.collected.len()
            invariant
                0 <= i <= self.collected.len(),
                forall|j: int| 0 <= j < i ==> self.collected@[j].relay != relay,
            decreases self.collected.len() - i,
        {
            if self.collected[i].relay == relay {
                assert(relays_of(self.collected@)[i as int] == relay);
                return true;
            }
            i += 1;
        }
        false
    }

    /// Takes the outcome of the call to the relay at `relay`. It is kept,
    /// whether a success or a failure, unless the relay is none of the set or
    /// has an outcome already. Hands back the broadcast as it is then, and
    /// what the driver does next.
    pub fn record(self, relay: usize, outcome: EndpointOutcome) -> (next: (Broadcast, BroadcastStep))
        ensures
            next.0.relay_count() == self.relay_count(),
            next.1 is Rejected <==> (relay >= self.relay_count() || relays_of(
                self.collected(),
            ).contains(relay)),
            next.1 is Rejected ==> next.0.collected() == self.collected(),
            !(next.1 is Rejected) ==> next.0.collected() == self.collected().push(
                RelayOutcome { relay, outcome },
            ),
            next.1 is Complete <==> !(next.1 is Rejected) && self.collected().len() + 1
                == self.relay_count(),
    {
        proof {
            use_type_invariant(&self);
        }
        if relay >= self.relay_count || self.has_outcome(relay) {
            return (self, BroadcastStep::Rejected);
        }
        proof {
            lemma_room_left(self.collected@, self.relay_count as nat, relay);
        }
        let Broadcast { relay_count, collected } = self;
        let ghost before = collected@;
        let mut collected = collected;
        collected.push(RelayOutcome { relay, outcome });
        proof {
            assert(relays_of(collected@) =~= relays_of(before).push(relay));
        }
        let step = if collected.len() == relay_count {
            BroadcastStep::Complete
        } else {
            BroadcastStep::Pending
        };
        (Broadcast { relay_count, collected }, step)
    }

    /// Ends the broadcast. Once every relay has an outcome, all of them are
    /// handed out: one for each relay of the set, none dropped. Before that
    /// the broadcast is handed back as it is.
    pub fn finish(self) -> (res: Result<Vec<RelayOutcome>, Broadcast>)
        ensures
            res is Ok <==> self.collected().len() == self.relay_count(),
            res matches Ok(outcomes) ==> outcomes@ == self.collected() && one_per_relay(
                outcomes@,
                self.relay_count(),
            ),
            res matches Err(broadcast) ==> broadcast == self,
    {
        proof {
            use_type_invariant(&self);
        }
        if self.collected.len() == self.relay_count {
            Ok(self.collected)
        } else {
            Err(self)
        }
    }
}

/// Outcomes of different relays, of which one relay of the set has none, are
/// fewer than the relays.
proof fn lemma_room_left(outcomes: Seq<RelayOutcome>, relay_count: nat, absent: usize)
    requires
        forall|i: int| 0 <= i < outcomes.len() ==> (#[trigger] outcomes[i]).relay < relay_count,
        relays_of(outcomes).no_duplicates(),
        absent < relay_count,
        !relays_of(outcomes).contains(absent),
    ensures
        outcomes.len() < relay_count,
{
    let seen = outcomes.map_values(|o: RelayOutcome| o.relay as int);
    let below = vstd::set_lib::set_int_range(0, relay_count as int);
    vstd::set_lib::lemma_int_range(0, relay_count as int);
    assert forall|i: int, j: int| 0 <= i < seen.len() && 0 <= j < seen.len() && i != j implies seen[i]
        != seen[j] by {
        assert(relays_of(outcomes)[i] != relays_of(outcomes)[j]);
    }
    seen.unique_seq_to_set();
    assert forall|x: int| seen.to_set().contains(x) implies below.remove(absent as int).contains(
        x,
    ) by {
        let i = choose|i: int| 0 <= i < seen.len() && seen[i] == x;
        assert(outcomes[i].relay < relay_count);
        assert(relays_of(outcomes)[i] == outcomes[i].relay);
    }
    vstd::set_lib::lemma_len_subset(seen.to_set(), below.remove(absent as int));
}

/// How many of the outcomes are successes.
pub fn successes(outcomes: &Vec<RelayOutcome>) -> (n: usize)
    ensures
        n == outcomes@.filter(|o: RelayOutcome| o.outcome@ is Success).len(),
        n <= outcomes@.len(),
{
    let ghost accepted = |o: RelayOutcome| o.outcome@ is Success;
    let mut n: usize = 0;
    let mut i: usize = 0;
    proof {
        assert(outcomes@.take(0) =~= Seq::<RelayOutcome>::empty());
        assert(outcomes@.take(0).filter(accepted) =~= Seq::<RelayOutcome>::empty()) by {
            reveal(Seq::filter);
        }
    }
    while i < outcomes.len()
        invariant
            0 <= i <= outcomes.len(),
            accepted == (|o: RelayOutcome| o.outcome@ is Success),
            n <= i,
            n == outcomes@.take(i as int).filter(accepted).len(),
        decreases outcomes.len() - i,
    {
        proof {
            assert(outcomes@.take(i + 1).drop_last() =~= outcomes@.take(i as int));
            reveal(Seq::filter);
        }
        if outcomes[i].outcome.is_success() {
            n += 1;
        }
        i += 1;
    }
    proof {
        assert(outcomes@.take(i as int) =~= outcomes@);
    }
    n
}

/// A race comes to one verdict only.
pub proof fn lemma_verdict_unique<T>(
    arrivals: Seq<Result<T, PbsError>>,
    one: RaceVerdict<T>,
    other: RaceVerdict<T>,
)
    requires
        race_verdict(arrivals, one),
        race_verdict(arrivals, other),
    ensures
        one == other,
{
    match (one, other) {
        (RaceVerdict::Won(p), RaceVerdict::Won(q)) => {
            let i = choose|i: int| #[trigger] wins(arrivals, i) && arrivals[i] == Ok::<T, PbsError>(p);
            let j = choose|j: int| #[trigger] wins(arrivals, j) && arrivals[j] == Ok::<T, PbsError>(q);
            if i < j {
                assert(arrivals[i] is Err);
            }
            if j < i {
                assert(arrivals[j] is Err);
            }
        },
        (RaceVerdict::Won(p), RaceVerdict::AllFailed) => {
            let i = choose|i: int| #[trigger] wins(arrivals, i) && arrivals[i] == Ok::<T, PbsError>(p);
            assert(arrivals[i] is Err);
        },
        (RaceVerdict::AllFailed, RaceVerdict::Won(q)) => {
            let j = choose|j: int| #[trigger] wins(arrivals, j) && arrivals[j] == Ok::<T, PbsError>(q);
            assert(arrivals[j] is Err);
        },
        (RaceVerdict::AllFailed, RaceVerdict::AllFailed) => {},
    }
}

/// Where one relay at least succeeds, the race is won, however many of the
/// others fail; where none does, it is lost.
pub proof fn lemma_won_iff_some_success<T>(arrivals: Seq<Result<T, PbsError>>, verdict: RaceVerdict<T>)
    requires
        race_verdict(arrivals, verdict),
    ensures
        verdict is Won <==> exists|position: int|
            0 <= position < arrivals.len() && (#[trigger] arrivals[position]) is Ok,
        verdict is AllFailed <==> all_failed(arrivals),
{
    match verdict {
        RaceVerdict::Won(p) => {
            let i = choose|i: int| #[trigger] wins(arrivals, i) && arrivals[i] == Ok::<T, PbsError>(p);
            assert(arrivals[i] is Ok);
        },
        RaceVerdict::AllFailed => {},
    }
}

/// Once a relay has succeeded, whatever arrives later is not seen: with more
/// results behind it the race is won by the same payload.
pub proof fn lemma_later_arrivals_unseen<T>(
    arrivals: Seq<Result<T, PbsError>>,
    later: Seq<Result<T, PbsError>>,
    verdict: RaceVerdict<T>,
)
    requires
        race_verdict(arrivals, verdict),
        verdict is Won,
    ensures
        race_verdict(arrivals + later, verdict),
{
    let payload = verdict->Won_0;
    let i = choose|i: int| #[trigger] wins(arrivals, i) && arrivals[i] == Ok::<T, PbsError>(payload);
    let all = arrivals + later;
    assert forall|earlier: int| 0 <= earlier < i implies (#[trigger] all[earlier]) is Err by {
        assert(arrivals[earlier] is Err);
    }
    assert(all[i] == arrivals[i]);
    assert(wins(all, i));
}

/// What the driver is told, step by step, when a race in `state` is handed
/// `arrivals` one after the other.
pub open spec fn race_steps<T>(state: RaceState, arrivals: Seq<Result<T, PbsError>>) -> Seq<
    RaceStep<T>,
>
    decreases arrivals.len(),
{
    if arrivals.len() == 0 {
        Seq::empty()
    } else {
        let (next, step) = race_step(state, arrivals[0]);
        seq![step] + race_steps(next, arrivals.drop_first())
    }
}

/// A race that is over ignores whatever it is handed.
pub proof fn lemma_over_ignores<T>(state: RaceState, arrivals: Seq<Result<T, PbsError>>)
    requires
        state.decided || state.remaining == 0,
    ensures
        race_steps(state, arrivals).len() == arrivals.len(),
        forall|i: int|
            0 <= i < arrivals.len() ==> #[trigger] race_steps(state, arrivals)[i]
                == RaceStep::<T>::Ignored,
    decreases arrivals.len(),
{
    if arrivals.len() > 0 {
        lemma_over_ignores(state, arrivals.drop_first());
    }
}

/// A race among `state.remaining` relays that is handed their results in
/// the order of arrival tells the driver to wait until the first success,
/// hands out that payload, and ignores what arrives after it. Where every
/// relay fails, it tells the driver to wait until the last failure, and is
/// lost with it.
pub proof fn lemma_race_steps<T>(state: RaceState, arrivals: Seq<Result<T, PbsError>>)
    requires
        !state.decided,
        arrivals.len() <= state.remaining,
    ensures
        race_steps(state, arrivals).len() == arrivals.len(),
        forall|p: int, i: int|
            wins(arrivals, p) && 0 <= i < arrivals.len() ==> #[trigger] race_steps(state, arrivals)[i]
                == (if i < p {
                RaceStep::<T>::Pending
            } else if i == p {
                RaceStep::Won((#[trigger] arrivals[p])->Ok_0)
            } else {
                RaceStep::Ignored
            }),
        forall|i: int|
            all_failed(arrivals) && 0 <= i < arrivals.len() ==> #[trigger] race_steps(
                state,
                arrivals,
            )[i] == (if i + 1 == state.remaining {
                RaceStep::<T>::Lost
            } else {
                RaceStep::Pending
            }),
    decreases arrivals.len(),
{
    if arrivals.len() > 0 {
        let (next, step) = race_step(state, arrivals[0]);
        let rest = arrivals.drop_first();
        let steps = race_steps(state, arrivals);
        assert(steps == seq![step] + race_steps(next, rest));
        if arrivals[0] is Ok {
            lemma_over_ignores(next, rest);
            assert forall|p: int, i: int|
                wins(arrivals, p) && 0 <= i < arrivals.len() implies #[trigger] steps[i] == (if i
                < p {
                RaceStep::<T>::Pending
            } else if i == p {
                RaceStep::Won((#[trigger] arrivals[p])->Ok_0)
            } else {
                RaceStep::Ignored
            }) by {
                if p > 0 {
                    assert(arrivals[0] is Err);
                }
                if i > 0 {
                    assert(steps[i] == race_steps(next, rest)[i - 1]);
                }
            }
            if all_failed(arrivals) {
                assert(arrivals[0] is Err);
            }
        } else {
            if state.remaining == 1 {
                assert(rest.len() == 0);
            } else {
                lemma_race_steps(next, rest);
            }
            assert forall|p: int, i: int|
                wins(arrivals, p) && 0 <= i < arrivals.len() implies #[trigger] steps[i] == (if i
                < p {
                RaceStep::<T>::Pending
            } else if i == p {
                RaceStep::Won((#[trigger] arrivals[p])->Ok_0)
            } else {
                RaceStep::Ignored
            }) by {
                assert(p > 0);
                assert(state.remaining > 1);
                assert forall|e: int| 0 <= e < p - 1 implies (#[trigger] rest[e]) is Err by {
                    assert(arrivals[e + 1] is Err);
                }
                assert(wins(rest, p - 1));
                assert(rest[p - 1] == arrivals[p]);
                if i > 0 {
                    assert(steps[i] == race_steps(next, rest)[i - 1]);
                }
            }
            assert forall|i: int|
                all_failed(arrivals) && 0 <= i < arrivals.len() implies #[trigger] steps[i] == (if i
                + 1 == state.remaining {
                RaceStep::<T>::Lost
            } else {
                RaceStep::Pending
            }) by {
                assert forall|e: int| 0 <= e < rest.len() implies (#[trigger] rest[e]) is Err by {
                    assert(arrivals[e + 1] is Err);
                }
                if i > 0 {
                    assert(steps[i] == race_steps(next, rest)[i - 1]);
                }
            }
        }
    }
}

} // verus!
