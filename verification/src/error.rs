//! Why a relay call, or a request as a whole, failed.

use vstd::prelude::*;

verus! {

/// Why one relay gave no usable reply.
#[derive(Debug)]
pub enum PbsError {
    /// The call ran into its time limit.
    Timeout,
    /// The relay could not be reached, or the connection broke.
    Transport,
    /// The relay answered with a success status, but its body is no reply
    /// of the expected shape.
    JsonDecode,
    /// The relay answered with a status outside the success class.
    RelayResponse { error_msg: String, code: u16 },
}

/// A relay failure by its contents.
pub enum PbsErrorView {
    Timeout,
    Transport,
    JsonDecode,
    RelayResponse { error_msg: Seq<char>, code: u16 },
}

impl View for PbsError {
    type V = PbsErrorView;

    open spec fn view(&self) -> PbsErrorView {
        match self {
            PbsError::Timeout => PbsErrorView::Timeout,
            PbsError::Transport => PbsErrorView::Transport,
            PbsError::JsonDecode => PbsErrorView::JsonDecode,
            PbsError::RelayResponse { error_msg, code } => PbsErrorView::RelayResponse {
                error_msg: error_msg@,
                code: *code,
            },
        }
    }
}

/// The text that `String::from_utf8_lossy` makes of bytes.
pub uninterp spec fn lossy_utf8(bytes: Seq<u8>) -> Seq<char>;

/// `String::from_utf8_lossy` of the standard library, made an owned string.
/// The text depends on the bytes alone; nothing more is claimed of it.
#[verifier::external_body]
pub(crate) fn string_from_utf8_lossy(bytes: &Vec<u8>) -> (text: String)
    ensures
        text@ == lossy_utf8(bytes@),
{
    String::from_utf8_lossy(bytes).into_owned()
}

impl PbsError {
    /// The failure that an answer with a status outside the success class
    /// stands for: the relay's own words, and its status code.
    pub fn relay_response(error_msg: String, code: u16) -> (err: PbsError)
        ensures
            err@ == (PbsErrorView::RelayResponse { error_msg: error_msg@, code }),
    {
        PbsError::RelayResponse { error_msg, code }
    }
}

} // verus!
