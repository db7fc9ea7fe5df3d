//! Endpoint tags and the reserved status code for calls that got no reply.

use vstd::prelude::*;

verus! {

pub const STATUS_ENDPOINT_TAG: &'static str = "status";

pub const REGISTER_VALIDATOR_ENDPOINT_TAG: &'static str = "register_validator";

pub const SUBMIT_BLINDED_BLOCK_ENDPOINT_TAG: &'static str = "submit_blinded_block";

pub const GET_HEADER_ENDPOINT_TAG: &'static str = "get_header";

pub const GET_PROPOSER_DUTIES_ENDPOINT_TAG: &'static str = "get_proposer_duties";

/// Status code under which a call is counted when the relay sent no reply in
/// time, or could not be reached at all. No relay can send it by mistake for a
/// real outcome of its own: it stands for the client's side only.
pub const TIMEOUT_ERROR_CODE: u16 = 555;

pub const TIMEOUT_ERROR_CODE_STR: &'static str = "555";

/// The endpoints of the builder API that the sidecar fans out.
#[derive(Clone, Copy, Debug, PartialEq, Eq, Structural)]
pub enum EndpointTag {
    Status,
    RegisterValidator,
    SubmitBlindedBlock,
    GetHeader,
    GetProposerDuties,
}

impl EndpointTag {
    /// The label under which calls to this endpoint are counted.
    pub open spec fn label(self) -> Seq<char> {
        match self {
            EndpointTag::Status => STATUS_ENDPOINT_TAG@,
            EndpointTag::RegisterValidator => REGISTER_VALIDATOR_ENDPOINT_TAG@,
            EndpointTag::SubmitBlindedBlock => SUBMIT_BLINDED_BLOCK_ENDPOINT_TAG@,
            EndpointTag::GetHeader => GET_HEADER_ENDPOINT_TAG@,
            EndpointTag::GetProposerDuties => GET_PROPOSER_DUTIES_ENDPOINT_TAG@,
        }
    }

    pub fn as_str(self) -> (res: &'static str)
        ensures
            res@ == self.label(),
    {
        match self {
            EndpointTag::Status => STATUS_ENDPOINT_TAG,
            EndpointTag::RegisterValidator => REGISTER_VALIDATOR_ENDPOINT_TAG,
            EndpointTag::SubmitBlindedBlock => SUBMIT_BLINDED_BLOCK_ENDPOINT_TAG,
            EndpointTag::GetHeader => GET_HEADER_ENDPOINT_TAG,
            EndpointTag::GetProposerDuties => GET_PROPOSER_DUTIES_ENDPOINT_TAG,
        }
    }
}

} // verus!
