//! Typed failures of the registry operations.
//!
//! Each mutating verb has one error per violated precondition, carrying the
//! identifying key fields (never the encoded composite key) so that callers
//! can render a user-facing message.

use vstd::prelude::*;

verus! {

/// Error returned by the mutating registry operations. `AlreadyExists`
/// variants are raised by Set on an occupied key; `DoesNotExist` variants by
/// Change and Remove on an absent key.
#[derive(Debug, Clone, PartialEq, Eq)]
pub enum ContractError {
    AliasAlreadyExists { alias: String },
    AliasDoesNotExist { current_alias: String },
    ChainToChainChannelLinkAlreadyExists { source_chain: String, destination_chain: String },
    ChainChannelLinkDoesNotExist { source_chain: String, destination_chain: String },
    ChannelToChainChainLinkAlreadyExists { channel_id: String, source_chain: String },
    ChannelToChainChainLinkDoesNotExist { channel_id: String, source_chain: String },
    OsmosisDenomLinkAlreadyExists { native_denom: String },
    OsmosisDenomLinkDoesNotExist { native_denom: String },
}

/// Generic failure of the read-only denom trace query: no trace record was
/// found for the requested hash.
#[derive(Debug, Clone, PartialEq, Eq)]
pub enum StdError {
    GenericErr { msg: String },
}

} // verus!
