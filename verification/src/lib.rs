//! An on-chain registry of cross-chain identifiers.
//!
//! Four independent keyed stores map human-chosen names to canonical
//! identifiers: contract aliases to addresses, (source chain, destination
//! chain) pairs to channel identifiers, (channel identifier, source chain)
//! pairs to destination chains, and native denominations to their IBC
//! denominations. A shared three-verb mutation protocol (Set / Change /
//! Remove) guarantees that keys are never silently overwritten or vacuously
//! updated, and a read-only helper extracts the base denomination from an
//! externally supplied denom trace record.

mod errors;
mod keys;
mod partition;
mod registry;
mod trace;

pub use errors::ContractError;
pub use errors::StdError;
pub use keys::chain_to_chain_channel_key_spec;
pub use keys::channel_to_chain_chain_key_spec;
pub use keys::composite_key;
pub use keys::key_separator;
pub use keys::lemma_chain_to_chain_channel_key_injective;
pub use keys::lemma_channel_to_chain_chain_key_injective;
pub use keys::lemma_composite_key_injective;
pub use keys::make_chain_to_chain_channel_key;
pub use keys::make_channel_to_chain_chain_key;
pub use keys::valid_key_part;
pub use registry::Registry;
pub use registry::Response;
pub use registry::lemma_change_then_get;
pub use registry::lemma_remove_then_absent;
pub use registry::lemma_set_then_get;
pub use trace::DenomTrace;
pub use trace::query_denom_trace;
