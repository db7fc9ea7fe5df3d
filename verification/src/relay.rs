//! The relays the sidecar is configured with.

use vstd::prelude::*;

verus! {

/// One relay: the name it is counted and logged under, and where it is
/// reached.
#[derive(Debug)]
pub struct Relay {
    pub id: String,
    pub base_url: String,
}

impl Clone for Relay {
    fn clone(&self) -> (copy: Relay)
        ensures
            copy == *self,
    {
        Relay { id: self.id.clone(), base_url: self.base_url.clone() }
    }
}

/// The relays in their configured order. No two share an id, and there is at
/// least one.
pub struct RelaySet {
    relays: Vec<Relay>,
}

/// Why a list of relays is no relay set.
#[derive(Clone, Copy, Debug, PartialEq, Eq, Structural)]
pub enum RelaySetError {
    /// No relay is configured.
    Empty,
}

/// The ids of a list of relays, in order.
pub open spec fn relay_ids(relays: Seq<Relay>) -> Seq<Seq<char>> {
    relays.map_values(|relay: Relay| relay.id@)
}

/// The list without the relays whose id an earlier relay already has.
pub open spec fn first_of_each_id(relays: Seq<Relay>) -> Seq<Relay>
    decreases relays.len(),
{
    if relays.len() == 0 {
        relays
    } else {
        let kept = first_of_each_id(relays.drop_last());
        if relay_ids(relays.drop_last()).contains(relays.last().id@) {
            kept
        } else {
            kept.push(relays.last())
        }
    }
}

/// The ids of the kept relays hold exactly the ids of the list, each once.
pub proof fn lemma_first_of_each_id(relays: Seq<Relay>)
    ensures
        first_of_each_id(relays).len() <= relays.len(),
        relays.len() > 0 ==> first_of_each_id(relays).len() > 0,
        relay_ids(first_of_each_id(relays)).no_duplicates(),
        forall|id: Seq<char>|
            relay_ids(first_of_each_id(relays)).contains(id) <==> relay_ids(relays).contains(id),
    decreases relays.len(),
{
    if relays.len() > 0 {
        let front = relays.drop_last();
        let last = relays.last();
        let kept = first_of_each_id(front);
        lemma_first_of_each_id(front);
        assert(relays =~= front.push(last));
        assert(relay_ids(relays) =~= relay_ids(front).push(last.id@));
        assert(relay_ids(kept.push(last)) =~= relay_ids(kept).push(last.id@));
        assert forall|id: Seq<char>|
            relay_ids(first_of_each_id(relays)).contains(id) <==> relay_ids(relays).contains(
                id,
            ) by {
            lemma_push_contains(relay_ids(front), last.id@, id);
            lemma_push_contains(relay_ids(kept), last.id@, id);
        }
        if front.len() == 0 {
            assert(!relay_ids(front).contains(last.id@));
        }
    }
}

proof fn lemma_push_contains<A>(s: Seq<A>, last: A, a: A)
    ensures
        s.push(last).contains(a) <==> (s.contains(a) || a == last),
{
    if s.contains(a) {
        let i = choose|i: int| 0 <= i < s.len() && s[i] == a;
        assert(s.push(last)[i] == a);
    }
    if a == last {
        assert(s.push(last)[s.len() as int] == a);
    }
}

impl RelaySet {
    /// The relays of the set, in order.
    pub closed spec fn view(&self) -> Seq<Relay> {
        self.relays@
    }

    /// What holds of every relay set: it is not empty, and its ids differ.
    #[verifier::type_invariant]
    closed spec fn well_formed(&self) -> bool {
        &&& self.relays@.len() > 0
        &&& relay_ids(self.relays@).no_duplicates()
    }

    /// Makes the relay set of a configured list: of relays that share an id
    /// the first is kept. An empty list is refused.
    pub fn new(relays: Vec<Relay>) -> (res: Result<RelaySet, RelaySetError>)
        ensures
            res is Err <==> relays@.len() == 0,
            res matches Ok(set) ==> set@ == first_of_each_id(relays@),
    {
        if relays.len() == 0 {
            return Err(RelaySetError::Empty);
        }
        let mut kept: Vec<Relay> = Vec::new();
        let mut i: usize = 0;
        while i < relays.len()
            invariant
                0 <= i <= relays.len(),
                kept@ == first_of_each_id(relays@.take(i as int)),
            decreases relays.len() - i,
        {
            let ghost front = relays@.take(i as int);
            proof {
                lemma_first_of_each_id(front);
                assert(relays@.take(i + 1).drop_last() =~= front);
            }
            if !has_id(&kept, &relays[i].id) {
                kept.push(relays[i].clone());
            }
            i += 1;
        }
        proof {
            assert(relays@.take(i as int) =~= relays@);
            lemma_first_of_each_id(relays@);
        }
        Ok(RelaySet { relays: kept })
    }

    /// How many relays the set has: at least one, and no two with one id.
    pub fn len(&self) -> (n: usize)
        ensures
            n == self@.len(),
            n > 0,
            relay_ids(self@).no_duplicates(),
    {
        proof {
            use_type_invariant(self);
        }
        self.relays.len()
    }

    /// The relay at a position of the configured order.
    pub fn get(&self, index: usize) -> (relay: Option<&Relay>)
        ensures
            index < self@.len() ==> relay == Some(&self@[index as int]),
            index >= self@.len() ==> relay is None,
    {
        if index < self.relays.len() {
            Some(&self.relays[index])
        } else {
            None
        }
    }
}

/// Whether one of `relays` has the id `id`.
fn has_id(relays: &Vec<Relay>, id: &String) -> (found: bool)
    ensures
        found == relay_ids(relays@).contains(id@),
{
    let mut i: usize = 0;
    while i < relays.len()
        invariant
            0 <= i <= relays.len(),
            forall|j: int| 0 <= j < i ==> relays@[j].id@ != id@,
        decreases relays.len() - i,
    {
        if relays[i].id == *id {
            assert(relay_ids(relays@)[i as int] == id@);
            return true;
        }
        i += 1;
    }
    false
}

} // verus!
