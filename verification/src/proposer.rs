//! Proposer duties as a relay reports them, and the check of a claimed
//! proposer against them.

use vstd::prelude::*;

verus! {

/// Length of a BLS public key in bytes.
pub const BLS_PUBLIC_KEY_BYTES_LEN: usize = 48;

/// A validator's BLS public key: 48 bytes, compared byte by byte.
#[derive(Clone, Copy, Debug)]
pub struct BlsPublicKey(pub [u8; 48]);

impl View for BlsPublicKey {
    type V = Seq<u8>;

    open spec fn view(&self) -> Seq<u8> {
        self.0@
    }
}

impl BlsPublicKey {
    /// A key of 48 equal bytes.
    pub fn repeat_byte(byte: u8) -> (key: BlsPublicKey)
        ensures
            key@ == Seq::new(48, |i: int| byte),
    {
        BlsPublicKey([byte; 48])
    }

    /// Whether two keys hold the same bytes.
    pub fn same_key(&self, other: &BlsPublicKey) -> (same: bool)
        ensures
            same == (self@ == other@),
            same == (*self == *other),
    {
        let mut i: usize = 0;
        while i < 48
            invariant
                0 <= i <= 48,
                forall|j: int| 0 <= j < i ==> self.0[j] == other.0[j],
            decreases 48 - i,
        {
            if self.0[i] != other.0[i] {
                assert(self@[i as int] != other@[i as int]);
                return false;
            }
            i += 1;
        }
        assert(self@ =~= other@);
        assert(self.0 =~= other.0);
        true
    }
}

impl PartialEq for BlsPublicKey {
    fn eq(&self, other: &BlsPublicKey) -> (same: bool) {
        self.same_key(other)
    }
}

impl Eq for BlsPublicKey {

}

impl vstd::std_specs::cmp::PartialEqSpecImpl for BlsPublicKey {
    open spec fn obeys_eq_spec() -> bool {
        true
    }

    open spec fn eq_spec(&self, other: &BlsPublicKey) -> bool {
        self@ == other@
    }
}

/// One proposer duty: the validator that proposes at a slot.
#[derive(Clone, Copy, Debug)]
pub struct ProposerSlot {
    pub pub_key: BlsPublicKey,
    pub validator_index: u64,
    pub slot: u64,
}

impl Default for ProposerSlot {
    fn default() -> (duty: ProposerSlot)
        ensures
            duty.pub_key@ == Seq::new(48, |i: int| 0u8),
            duty.validator_index == 0,
            duty.slot == 0,
    {
        ProposerSlot { pub_key: BlsPublicKey::repeat_byte(0), validator_index: 0, slot: 0 }
    }
}

/// The fork a relay tags its reply with.
#[derive(Clone, Copy, Debug, PartialEq, Eq, Structural)]
pub enum Version {
    Deneb,
}

/// The envelope of a relay's reply: a version tag and the payload.
#[derive(Debug)]
pub struct VersionedResponse<T> {
    pub version: Version,
    pub data: T,
}

impl<T: Clone> Clone for VersionedResponse<T> {
    fn clone(&self) -> (copy: VersionedResponse<T>)
        ensures
            copy.version == self.version,
            cloned(self.data, copy.data),
    {
        VersionedResponse { version: self.version, data: self.data.clone() }
    }
}

/// The proposer duties of the relay's current epoch.
pub type GetProposerEpochResponse = VersionedResponse<Vec<ProposerSlot>>;

/// Why a duty check failed although a relay answered.
#[derive(Debug)]
pub enum ProposerError {
    ProposerNotFound(String),
}

/// Whether `duty` names one of `pubkeys` as the proposer of `slot`.
pub open spec fn duty_matches(duty: ProposerSlot, pubkeys: Seq<BlsPublicKey>, slot: u64) -> bool {
    pubkeys.contains(duty.pub_key) && duty.slot == slot
}

/// Whether some duty of `duties` names one of `pubkeys` as the proposer of
/// `slot`.
pub open spec fn has_proposer(duties: Seq<ProposerSlot>, pubkeys: Seq<BlsPublicKey>, slot: u64) -> bool {
    exists|i: int| 0 <= i < duties.len() && duty_matches(#[trigger] duties[i], pubkeys, slot)
}

/// Whether `pubkeys` holds `key`.
pub fn contains_key(pubkeys: &Vec<BlsPublicKey>, key: &BlsPublicKey) -> (found: bool)
    ensures
        found == pubkeys@.contains(*key),
{
    let mut i: usize = 0;
    while i < pubkeys.len()
        invariant
            0 <= i <= pubkeys.len(),
            forall|j: int| 0 <= j < i ==> pubkeys@[j] != *key,
        decreases pubkeys.len() - i,
    {
        if pubkeys[i].same_key(key) {
            return true;
        }
        i += 1;
    }
    false
}

impl GetProposerEpochResponse {
    /// Confirms that the duties name one of `pubkeys` as the proposer of
    /// `slot`. A reply that names none of them for that slot is an error,
    /// though the relay did answer.
    pub fn check_proposers_slots(&self, pubkeys: Vec<BlsPublicKey>, slot: u64) -> (res: Result<
        (),
        ProposerError,
    >)
        ensures
            res is Ok <==> has_proposer(self.data@, pubkeys@, slot),
            res matches Err(e) ==> e.message() == PROPOSER_NOT_FOUND@,
    {
        let mut i: usize = 0;
        while i < self.data.len()
            invariant
                0 <= i <= self.data.len(),
                forall|j: int| 0 <= j < i ==> !duty_matches(#[trigger] self.data@[j], pubkeys@, slot),
            decreases self.data.len() - i,
        {
            let duty = &self.data[i];
            if contains_key(&pubkeys, &duty.pub_key) && duty.slot == slot {
                assert(duty_matches(self.data@[i as int], pubkeys@, slot));
                return Ok(());
            }
            i += 1;
        }
        Err(ProposerError::from(PROPOSER_NOT_FOUND.to_owned()))
    }
}

/// What a failed check says of itself.
pub const PROPOSER_NOT_FOUND: &'static str = "Proposer not found";

impl ProposerError {
    /// The text the error was made with.
    pub open spec fn message(self) -> Seq<char> {
        match self {
            ProposerError::ProposerNotFound(msg) => msg@,
        }
    }

    /// The error as a line of text: a fixed prefix, then the message.
    pub open spec fn text(self) -> Seq<char> {
        "Proposer not found: "@ + self.message()
    }

    /// The error as a line of text.
    pub fn to_string(&self) -> (line: String)
        ensures
            line@ == self.text(),
    {
        match self {
            ProposerError::ProposerNotFound(msg) => {
                let line = String::from_str("Proposer not found: ");
                line.concat(msg.as_str())
            },
        }
    }
}

impl From<String> for ProposerError {
    fn from(msg: String) -> (err: ProposerError) {
        ProposerError::ProposerNotFound(msg)
    }
}

impl vstd::std_specs::convert::FromSpecImpl<String> for ProposerError {
    open spec fn obeys_from_spec() -> bool {
        true
    }

    open spec fn from_spec(msg: String) -> ProposerError {
        ProposerError::ProposerNotFound(msg)
    }
}

} // verus!
