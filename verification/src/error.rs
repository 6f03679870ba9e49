//! The failures the indexer core distinguishes.

use vstd::prelude::*;

verus! {

/// What can go wrong inside the core. Transport and driver failures belong to
/// the caller; the core only names what it decides itself.
#[derive(Debug)]
pub enum Error {
    /// A recognised transaction kind whose payload could not be decoded.
    InvalidTxData(String),
    /// The checksums document is not well-formed JSON; the parser's message.
    SerdeJsonError(String),
    /// The checksums document is JSON but not of the expected shape.
    InvalidChecksum,
    /// The node knows no epoch for the height asked.
    EpochNotFound,
    /// The node knows no proposal under the id asked.
    ProposalNotFound,
}

impl Error {
    /// The text that describes the failure.
    pub open spec fn spec_text(&self) -> Seq<char> {
        match self {
            Error::InvalidTxData(reason) => "Invalid Transaction data, reason: "@ + reason@,
            Error::SerdeJsonError(message) => "serde_json error: "@ + message@,
            Error::InvalidChecksum => "Invalid checksum data"@,
            Error::EpochNotFound => "Epoch not found"@,
            Error::ProposalNotFound => "Proposal not found"@,
        }
    }

    /// The text that describes the failure.
    pub fn to_string(&self) -> (text: String)
        ensures
            text@ == self.spec_text(),
    {
        match self {
            Error::InvalidTxData(reason) => String::from_str(
                "Invalid Transaction data, reason: ",
            ).concat(reason.as_str()),
            Error::SerdeJsonError(message) => String::from_str("serde_json error: ").concat(
                message.as_str(),
            ),
            Error::InvalidChecksum => String::from_str("Invalid checksum data"),
            Error::EpochNotFound => String::from_str("Epoch not found"),
            Error::ProposalNotFound => String::from_str("Proposal not found"),
        }
    }
}

} // verus!
