//! The registry: four independent keyed stores sharing one durable map.
//!
//! Every mutating operation follows the same three-verb protocol. Set
//! requires its key to be absent, Change and Remove require it to be
//! present; a violated precondition surfaces as a typed error and leaves
//! the store untouched. The protocol is implemented once, on the shared
//! store, and instantiated by twelve registry-specific entry points.

use vstd::prelude::*;
use vstd::map::*;
use vstd::hash_map::StringHashMap;

use crate::errors::ContractError;
use crate::keys::chain_to_chain_channel_key_spec;
use crate::keys::channel_to_chain_chain_key_spec;
use crate::keys::composite_key;
use crate::keys::join_key_parts;
use crate::keys::make_chain_to_chain_channel_key;
use crate::keys::make_channel_to_chain_chain_key;
use crate::keys::valid_key_part;
use crate::partition::alias_namespace;
use crate::partition::chain_channel_namespace;
use crate::partition::channel_chain_namespace;
use crate::partition::denom_namespace;
use crate::partition::lemma_namespaces_wf;
use crate::partition::lemma_partition_insert_other;
use crate::partition::lemma_partition_insert_same;
use crate::partition::lemma_partition_remove_other;
use crate::partition::lemma_partition_remove_same;
use crate::partition::partition;

verus! {

/// Success metadata of a mutating operation: records which operation ran,
/// for observability. Not behaviorally significant.
#[derive(Debug, Clone, PartialEq, Eq)]
pub struct Response {
    pub method: String,
}

impl Response {
    /// Builds the success metadata naming the operation that ran.
    pub fn new(method: &str) -> (response: Response)
        ensures
            response.method@ == method@,
    {
        Response { method: method.to_owned() }
    }
}

/// The contents of a string-valued map, seen as a map of character
/// sequences.
spec fn string_view(m: Map<Seq<char>, String>) -> Map<Seq<char>, Seq<char>> {
    Map::new(|k: Seq<char>| m.contains_key(k), |k: Seq<char>| m[k]@)
}

/// Namespace prefix of the contract alias registry.
fn alias_prefix() -> (prefix: &'static str)
    ensures
        prefix@ == alias_namespace(),
{
    proof {
        reveal_strlit("alias");
        assert("alias"@ =~= alias_namespace());
    }
    "alias"
}

/// Namespace prefix of the chain-pair channel registry.
fn chain_prefix() -> (prefix: &'static str)
    ensures
        prefix@ == chain_channel_namespace(),
{
    proof {
        reveal_strlit("chain");
        assert("chain"@ =~= chain_channel_namespace());
    }
    "chain"
}

/// Namespace prefix of the channel-pair chain registry.
fn channel_prefix() -> (prefix: &'static str)
    ensures
        prefix@ == channel_chain_namespace(),
{
    proof {
        reveal_strlit("channel");
        assert("channel"@ =~= channel_chain_namespace());
    }
    "channel"
}

/// Namespace prefix of the denom registry.
fn denom_prefix() -> (prefix: &'static str)
    ensures
        prefix@ == denom_namespace(),
{
    proof {
        reveal_strlit("denom");
        assert("denom"@ =~= denom_namespace());
    }
    "denom"
}

/// The registry state: one durable string-keyed store holding the four
/// partitions.
pub struct Registry {
    map: StringHashMap<String>,
}

impl Registry {
    /// The shared store, as a map from full (namespaced) keys to values.
    pub closed spec fn store(self) -> Map<Seq<char>, Seq<char>> {
        string_view(self.map@)
    }

    /// The contract alias registry: alias -> contract address.
    pub open spec fn aliases(self) -> Map<Seq<char>, Seq<char>> {
        partition(self.store(), alias_namespace())
    }

    /// The chain-pair channel registry: composite (source, destination) key
    /// -> channel id.
    pub open spec fn chain_channels(self) -> Map<Seq<char>, Seq<char>> {
        partition(self.store(), chain_channel_namespace())
    }

    /// The channel-pair chain registry: composite (channel, source) key ->
    /// destination chain.
    pub open spec fn channel_chains(self) -> Map<Seq<char>, Seq<char>> {
        partition(self.store(), channel_chain_namespace())
    }

    /// The denom registry: native denom -> IBC denom.
    pub open spec fn denoms(self) -> Map<Seq<char>, Seq<char>> {
        partition(self.store(), denom_namespace())
    }

    /// True iff the four registries hold exactly the same entries in both
    /// states.
    pub open spec fn same_entries(self, other: Registry) -> bool {
        &&& self.aliases() == other.aliases()
        &&& self.chain_channels() == other.chain_channels()
        &&& self.channel_chains() == other.channel_chains()
        &&& self.denoms() == other.denoms()
    }

    /// Creates a registry with all four partitions empty.
    pub fn new() -> (registry: Registry)
        ensures
            registry.aliases() == Map::<Seq<char>, Seq<char>>::empty(),
            registry.chain_channels() == Map::<Seq<char>, Seq<char>>::empty(),
            registry.channel_chains() == Map::<Seq<char>, Seq<char>>::empty(),
            registry.denoms() == Map::<Seq<char>, Seq<char>>::empty(),
    {
        let registry = Registry { map: StringHashMap::new() };
        proof {
            assert_maps_equal!(registry.store(), Map::<Seq<char>, Seq<char>>::empty(), k => {});
            assert_maps_equal!(registry.aliases(), Map::<Seq<char>, Seq<char>>::empty(), k => {});
            assert_maps_equal!(
                registry.chain_channels(), Map::<Seq<char>, Seq<char>>::empty(), k => {});
            assert_maps_equal!(
                registry.channel_chains(), Map::<Seq<char>, Seq<char>>::empty(), k => {});
            assert_maps_equal!(registry.denoms(), Map::<Seq<char>, Seq<char>>::empty(), k => {});
        }
        registry
    }

    /// Set, on the shared store: persists `key -> value` in the namespace
    /// iff the key is absent there, and fails with the supplied error
    /// otherwise.
    fn set_entry(&mut self, ns: &str, key: &str, value: String, err_exists: ContractError) -> (
        result: Result<(), ContractError>)
        requires
            valid_key_part(ns@),
        ensures
            old(self).store().contains_key(composite_key(ns@, key@)) ==> {
                &&& result == Err::<(), ContractError>(err_exists)
                &&& final(self).store() == old(self).store()
            },
            !old(self).store().contains_key(composite_key(ns@, key@)) ==> {
                &&& result == Ok::<(), ContractError>(())
                &&& final(self).store() == old(self).store().insert(
                    composite_key(ns@, key@),
                    value@,
                )
                &&& partition(final(self).store(), ns@) == partition(
                    old(self).store(),
                    ns@,
                ).insert(key@, value@)
                &&& forall|other: Seq<char>|
                    valid_key_part(other) && other != ns@ ==> partition(
                        final(self).store(),
                        other,
                    ) == partition(old(self).store(), other)
            },
    {
        let ghost pre = self.store();
        let full_key = join_key_parts(ns, key);
        if self.map.contains_key(full_key.as_str()) {
            Err(err_exists)
        } else {
            self.map.insert(full_key, value);
            proof {
                assert_maps_equal!(
                    self.store(), pre.insert(composite_key(ns@, key@), value@), k => {});
                lemma_partition_insert_same(pre, ns@, key@, value@);
                assert forall|other: Seq<char>| valid_key_part(other) && other != ns@ implies
                    partition(self.store(), other) == partition(pre, other) by {
                    lemma_partition_insert_other(pre, ns@, other, key@, value@);
                }
            }
            Ok(())
        }
    }

    /// Change, on the shared store: overwrites the value under `key` in the
    /// namespace iff the key is present there, and fails with the supplied
    /// error otherwise.
    fn change_entry(&mut self, ns: &str, key: &str, new_value: String, err_missing: ContractError)
        -> (result: Result<(), ContractError>)
        requires
            valid_key_part(ns@),
        ensures
            !old(self).store().contains_key(composite_key(ns@, key@)) ==> {
                &&& result == Err::<(), ContractError>(err_missing)
                &&& final(self).store() == old(self).store()
            },
            old(self).store().contains_key(composite_key(ns@, key@)) ==> {
                &&& result == Ok::<(), ContractError>(())
                &&& final(self).store() == old(self).store().insert(
                    composite_key(ns@, key@),
                    new_value@,
                )
                &&& partition(final(self).store(), ns@) == partition(
                    old(self).store(),
                    ns@,
                ).insert(key@, new_value@)
                &&& forall|other: Seq<char>|
                    valid_key_part(other) && other != ns@ ==> partition(
                        final(self).store(),
                        other,
                    ) == partition(old(self).store(), other)
            },
    {
        let ghost pre = self.store();
        let full_key = join_key_parts(ns, key);
        if !self.map.contains_key(full_key.as_str()) {
            Err(err_missing)
        } else {
            self.map.insert(full_key, new_value);
            proof {
                assert_maps_equal!(
                    self.store(), pre.insert(composite_key(ns@, key@), new_value@), k => {});
                lemma_partition_insert_same(pre, ns@, key@, new_value@);
                assert forall|other: Seq<char>| valid_key_part(other) && other != ns@ implies
                    partition(self.store(), other) == partition(pre, other) by {
                    lemma_partition_insert_other(pre, ns@, other, key@, new_value@);
                }
            }
            Ok(())
        }
    }

    /// Remove, on the shared store: deletes the entry under `key` in the
    /// namespace iff the key is present there, and fails with the supplied
    /// error otherwise.
    fn remove_entry(&mut self, ns: &str, key: &str, err_missing: ContractError) -> (result:
        Result<(), ContractError>)
        requires
            valid_key_part(ns@),
        ensures
            !old(self).store().contains_key(composite_key(ns@, key@)) ==> {
                &&& result == Err::<(), ContractError>(err_missing)
                &&& final(self).store() == old(self).store()
            },
            old(self).store().contains_key(composite_key(ns@, key@)) ==> {
                &&& result == Ok::<(), ContractError>(())
                &&& final(self).store() == old(self).store().remove(composite_key(ns@, key@))
                &&& partition(final(self).store(), ns@) == partition(
                    old(self).store(),
                    ns@,
                ).remove(key@)
                &&& forall|other: Seq<char>|
                    valid_key_part(other) && other != ns@ ==> partition(
                        final(self).store(),
                        other,
                    ) == partition(old(self).store(), other)
            },
    {
        let ghost pre = self.store();
        let full_key = join_key_parts(ns, key);
        if !self.map.contains_key(full_key.as_str()) {
            Err(err_missing)
        } else {
            self.map.remove(full_key.as_str());
            proof {
                assert_maps_equal!(self.store(), pre.remove(composite_key(ns@, key@)), k => {});
                lemma_partition_remove_same(pre, ns@, key@);
                assert forall|other: Seq<char>| valid_key_part(other) && other != ns@ implies
                    partition(self.store(), other) == partition(pre, other) by {
                    lemma_partition_remove_other(pre, ns@, other, key@);
                }
            }
            Ok(())
        }
    }

    /// Lookup, on the shared store: the value under `key` in the namespace,
    /// or `None` if the key is absent there.
    fn get_entry(&self, ns: &str, key: &str) -> (result: Option<String>)
        ensures
            match result {
                Some(value) => partition(self.store(), ns@).contains_key(key@) && value@
                    == partition(self.store(), ns@)[key@],
                None => !partition(self.store(), ns@).contains_key(key@),
            },
    {
        let full_key = join_key_parts(ns, key);
        match self.map.get(full_key.as_str()) {
            Some(value) => Some(value.clone()),
            None => None,
        }
    }

    // Contract alias registry.

    /// Set an alias -> address entry. Fails iff the alias is already bound.
    pub fn set_contract_alias(&mut self, alias: String, address: String) -> (result: Result<
        Response,
        ContractError,
    >)
        ensures
            old(self).aliases().contains_key(alias@) ==> {
                &&& result == Err::<Response, ContractError>(
                    (ContractError::AliasAlreadyExists { alias }),
                )
                &&& final(self).same_entries(*old(self))
            },
            !old(self).aliases().contains_key(alias@) ==> {
                &&& result matches Ok(response) && response.method@ == "set_contract_alias"@
                &&& final(self).aliases() == old(self).aliases().insert(alias@, address@)
                &&& final(self).chain_channels() == old(self).chain_channels()
                &&& final(self).channel_chains() == old(self).channel_chains()
                &&& final(self).denoms() == old(self).denoms()
            },
    {
        proof {
            lemma_namespaces_wf();
        }
        let err = ContractError::AliasAlreadyExists { alias: alias.clone() };
        match self.set_entry(alias_prefix(), alias.as_str(), address, err) {
            Ok(()) => Ok(Response::new("set_contract_alias")),
            Err(e) => Err(e),
        }
    }

    /// Change an existing alias -> address entry to a new address. Fails iff
    /// the alias is not bound.
    pub fn change_contract_alias(&mut self, current_alias: String, new_address: String) -> (result:
        Result<Response, ContractError>)
        ensures
            !old(self).aliases().contains_key(current_alias@) ==> {
                &&& result == Err::<Response, ContractError>(
                    (ContractError::AliasDoesNotExist { current_alias }),
                )
                &&& final(self).same_entries(*old(self))
            },
            old(self).aliases().contains_key(current_alias@) ==> {
                &&& result matches Ok(response) && response.method@ == "change_contract_alias"@
                &&& final(self).aliases() == old(self).aliases().insert(
                    current_alias@,
                    new_address@,
                )
                &&& final(self).chain_channels() == old(self).chain_channels()
                &&& final(self).channel_chains() == old(self).channel_chains()
                &&& final(self).denoms() == old(self).denoms()
            },
    {
        proof {
            lemma_namespaces_wf();
        }
        let err = ContractError::AliasDoesNotExist { current_alias: current_alias.clone() };
        match self.change_entry(alias_prefix(), current_alias.as_str(), new_address, err) {
            Ok(()) => Ok(Response::new("change_contract_alias")),
            Err(e) => Err(e),
        }
    }

    /// Remove an existing alias -> address entry. Fails iff the alias is not
    /// bound.
    pub fn remove_contract_alias(&mut self, current_alias: &str) -> (result: Result<
        Response,
        ContractError,
    >)
        ensures
            !old(self).aliases().contains_key(current_alias@) ==> {
                &&& result matches Err(e) && e matches ContractError::AliasDoesNotExist {
                    current_alias: a,
                } && a@ == current_alias@
                &&& final(self).same_entries(*old(self))
            },
            old(self).aliases().contains_key(current_alias@) ==> {
                &&& result matches Ok(response) && response.method@ == "remove_contract_alias"@
                &&& final(self).aliases() == old(self).aliases().remove(current_alias@)
                &&& final(self).chain_channels() == old(self).chain_channels()
                &&& final(self).channel_chains() == old(self).channel_chains()
                &&& final(self).denoms() == old(self).denoms()
            },
    {
        proof {
            lemma_namespaces_wf();
        }
        let err = ContractError::AliasDoesNotExist { current_alias: current_alias.to_owned() };
        match self.remove_entry(alias_prefix(), current_alias, err) {
            Ok(()) => Ok(Response::new("remove_contract_alias")),
            Err(e) => Err(e),
        }
    }

    /// Look up the address bound to an alias.
    pub fn get_contract_alias(&self, alias: &str) -> (result: Option<String>)
        ensures
            match result {
                Some(address) => self.aliases().contains_key(alias@)
                    && address@ == self.aliases()[alias@],
                None => !self.aliases().contains_key(alias@),
            },
    {
        proof {
            lemma_namespaces_wf();
        }
        self.get_entry(alias_prefix(), alias)
    }

    // Chain-pair channel registry.

    /// Set a (source, destination) -> channel entry. Fails iff the pair is
    /// already linked.
    pub fn set_chain_to_chain_channel_link(
        &mut self,
        source_chain: String,
        destination_chain: String,
        channel_id: String,
    ) -> (result: Result<Response, ContractError>)
        ensures
            old(self).chain_channels().contains_key(
                chain_to_chain_channel_key_spec(source_chain@, destination_chain@),
            ) ==> {
                &&& result == Err::<Response, ContractError>(
                    (ContractError::ChainToChainChannelLinkAlreadyExists {
                        source_chain,
                        destination_chain,
                    }),
                )
                &&& final(self).same_entries(*old(self))
            },
            !old(self).chain_channels().contains_key(
                chain_to_chain_channel_key_spec(source_chain@, destination_chain@),
            ) ==> {
                &&& result matches Ok(response) && response.method@
                    == "set_chain_to_chain_channel_link"@
                &&& final(self).chain_channels() == old(self).chain_channels().insert(
                    chain_to_chain_channel_key_spec(source_chain@, destination_chain@),
                    channel_id@,
                )
                &&& final(self).aliases() == old(self).aliases()
                &&& final(self).channel_chains() == old(self).channel_chains()
                &&& final(self).denoms() == old(self).denoms()
            },
    {
        proof {
            lemma_namespaces_wf();
        }
        let key = make_chain_to_chain_channel_key(source_chain.as_str(), destination_chain.as_str());
        let err = ContractError::ChainToChainChannelLinkAlreadyExists {
            source_chain: source_chain.clone(),
            destination_chain: destination_chain.clone(),
        };
        match self.set_entry(chain_prefix(), key.as_str(), channel_id, err) {
            Ok(()) => Ok(Response::new("set_chain_to_chain_channel_link")),
            Err(e) => Err(e),
        }
    }

    /// Change an existing (source, destination) -> channel entry to a new
    /// channel. Fails iff the pair is not linked.
    pub fn change_chain_to_chain_channel_link(
        &mut self,
        source_chain: String,
        destination_chain: String,
        new_channel_id: String,
    ) -> (result: Result<Response, ContractError>)
        ensures
            !old(self).chain_channels().contains_key(
                chain_to_chain_channel_key_spec(source_chain@, destination_chain@),
            ) ==> {
                &&& result == Err::<Response, ContractError>(
                    (ContractError::ChainChannelLinkDoesNotExist {
                        source_chain,
                        destination_chain,
                    }),
                )
                &&& final(self).same_entries(*old(self))
            },
            old(self).chain_channels().contains_key(
                chain_to_chain_channel_key_spec(source_chain@, destination_chain@),
            ) ==> {
                &&& result matches Ok(response) && response.method@ == "change_chain_channel_link"@
                &&& final(self).chain_channels() == old(self).chain_channels().insert(
                    chain_to_chain_channel_key_spec(source_chain@, destination_chain@),
                    new_channel_id@,
                )
                &&& final(self).aliases() == old(self).aliases()
                &&& final(self).channel_chains() == old(self).channel_chains()
                &&& final(self).denoms() == old(self).denoms()
            },
    {
        proof {
            lemma_namespaces_wf();
        }
        let key = make_chain_to_chain_channel_key(source_chain.as_str(), destination_chain.as_str());
        let err = ContractError::ChainChannelLinkDoesNotExist {
            source_chain: source_chain.clone(),
            destination_chain: destination_chain.clone(),
        };
        match self.change_entry(chain_prefix(), key.as_str(), new_channel_id, err) {
            Ok(()) => Ok(Response::new("change_chain_channel_link")),
            Err(e) => Err(e),
        }
    }

    /// Remove an existing (source, destination) -> channel entry. Fails iff
    /// the pair is not linked.
    pub fn remove_chain_to_chain_channel_link(
        &mut self,
        source_chain: String,
        destination_chain: String,
    ) -> (result: Result<Response, ContractError>)
        ensures
            !old(self).chain_channels().contains_key(
                chain_to_chain_channel_key_spec(source_chain@, destination_chain@),
            ) ==> {
                &&& result == Err::<Response, ContractError>(
                    (ContractError::ChainChannelLinkDoesNotExist {
                        source_chain,
                        destination_chain,
                    }),
                )
                &&& final(self).same_entries(*old(self))
            },
            old(self).chain_channels().contains_key(
                chain_to_chain_channel_key_spec(source_chain@, destination_chain@),
            ) ==> {
                &&& result matches Ok(response) && response.method@ == "remove_chain_channel_link"@
                &&& final(self).chain_channels() == old(self).chain_channels().remove(
                    chain_to_chain_channel_key_spec(source_chain@, destination_chain@),
                )
                &&& final(self).aliases() == old(self).aliases()
                &&& final(self).channel_chains() == old(self).channel_chains()
                &&& final(self).denoms() == old(self).denoms()
            },
    {
        proof {
            lemma_namespaces_wf();
        }
        let key = make_chain_to_chain_channel_key(source_chain.as_str(), destination_chain.as_str());
        let err = ContractError::ChainChannelLinkDoesNotExist {
            source_chain: source_chain.clone(),
            destination_chain: destination_chain.clone(),
        };
        match self.remove_entry(chain_prefix(), key.as_str(), err) {
            Ok(()) => Ok(Response::new("remove_chain_channel_link")),
            Err(e) => Err(e),
        }
    }

    /// Look up the channel linked to a (source, destination) chain pair.
    pub fn get_chain_to_chain_channel_link(&self, source_chain: &str, destination_chain: &str) -> (
        result: Option<String>)
        ensures
            match result {
                Some(channel_id) => self.chain_channels().contains_key(
                    chain_to_chain_channel_key_spec(source_chain@, destination_chain@),
                ) && channel_id@ == self.chain_channels()[chain_to_chain_channel_key_spec(
                    source_chain@,
                    destination_chain@,
                )],
                None => !self.chain_channels().contains_key(
                    chain_to_chain_channel_key_spec(source_chain@, destination_chain@),
                ),
            },
    {
        proof {
            lemma_namespaces_wf();
        }
        let key = make_chain_to_chain_channel_key(source_chain, destination_chain);
        self.get_entry(chain_prefix(), key.as_str())
    }

    // Channel-pair chain registry.

    /// Set a (channel, source) -> destination entry. Fails iff the pair is
    /// already linked.
    pub fn set_channel_to_chain_chain_link(
        &mut self,
        channel_id: String,
        source_chain: String,
        destination_chain: String,
    ) -> (result: Result<Response, ContractError>)
        ensures
            old(self).channel_chains().contains_key(
                channel_to_chain_chain_key_spec(channel_id@, source_chain@),
            ) ==> {
                &&& result == Err::<Response, ContractError>(
                    (ContractError::ChannelToChainChainLinkAlreadyExists {
                        channel_id,
                        source_chain,
                    }),
                )
                &&& final(self).same_entries(*old(self))
            },
            !old(self).channel_chains().contains_key(
                channel_to_chain_chain_key_spec(channel_id@, source_chain@),
            ) ==> {
                &&& result matches Ok(response) && response.method@
                    == "set_channel_to_chain_chain_link"@
                &&& final(self).channel_chains() == old(self).channel_chains().insert(
                    channel_to_chain_chain_key_spec(channel_id@, source_chain@),
                    destination_chain@,
                )
                &&& final(self).aliases() == old(self).aliases()
                &&& final(self).chain_channels() == old(self).chain_channels()
                &&& final(self).denoms() == old(self).denoms()
            },
    {
        proof {
            lemma_namespaces_wf();
        }
        let key = make_channel_to_chain_chain_key(channel_id.as_str(), source_chain.as_str());
        let err = ContractError::ChannelToChainChainLinkAlreadyExists {
            channel_id: channel_id.clone(),
            source_chain: source_chain.clone(),
        };
        match self.set_entry(channel_prefix(), key.as_str(), destination_chain, err) {
            Ok(()) => Ok(Response::new("set_channel_to_chain_chain_link")),
            Err(e) => Err(e),
        }
    }

    /// Change an existing (channel, source) -> destination entry to a new
    /// destination. Fails iff the pair is not linked.
    pub fn change_channel_to_chain_chain_link(
        &mut self,
        channel_id: String,
        source_chain: String,
        new_destination_chain: String,
    ) -> (result: Result<Response, ContractError>)
        ensures
            !old(self).channel_chains().contains_key(
                channel_to_chain_chain_key_spec(channel_id@, source_chain@),
            ) ==> {
                &&& result == Err::<Response, ContractError>(
                    (ContractError::ChannelToChainChainLinkDoesNotExist {
                        channel_id,
                        source_chain,
                    }),
                )
                &&& final(self).same_entries(*old(self))
            },
            old(self).channel_chains().contains_key(
                channel_to_chain_chain_key_spec(channel_id@, source_chain@),
            ) ==> {
                &&& result matches Ok(response) && response.method@
                    == "change_channel_to_chain_chain_link"@
                &&& final(self).channel_chains() == old(self).channel_chains().insert(
                    channel_to_chain_chain_key_spec(channel_id@, source_chain@),
                    new_destination_chain@,
                )
                &&& final(self).aliases() == old(self).aliases()
                &&& final(self).chain_channels() == old(self).chain_channels()
                &&& final(self).denoms() == old(self).denoms()
            },
    {
        proof {
            lemma_namespaces_wf();
        }
        let key = make_channel_to_chain_chain_key(channel_id.as_str(), source_chain.as_str());
        let err = ContractError::ChannelToChainChainLinkDoesNotExist {
            channel_id: channel_id.clone(),
            source_chain: source_chain.clone(),
        };
        match self.change_entry(channel_prefix(), key.as_str(), new_destination_chain, err) {
            Ok(()) => Ok(Response::new("change_channel_to_chain_chain_link")),
            Err(e) => Err(e),
        }
    }

    /// Remove an existing (channel, source) -> destination entry. Fails iff
    /// the pair is not linked.
    pub fn remove_channel_to_chain_chain_link(&mut self, channel_id: String, source_chain: String)
        -> (result: Result<Response, ContractError>)
        ensures
            !old(self).channel_chains().contains_key(
                channel_to_chain_chain_key_spec(channel_id@, source_chain@),
            ) ==> {
                &&& result == Err::<Response, ContractError>(
                    (ContractError::ChannelToChainChainLinkDoesNotExist {
                        channel_id,
                        source_chain,
                    }),
                )
                &&& final(self).same_entries(*old(self))
            },
            old(self).channel_chains().contains_key(
                channel_to_chain_chain_key_spec(channel_id@, source_chain@),
            ) ==> {
                &&& result matches Ok(response) && response.method@
                    == "remove_channel_to_chain_chain_link"@
                &&& final(self).channel_chains() == old(self).channel_chains().remove(
                    channel_to_chain_chain_key_spec(channel_id@, source_chain@),
                )
                &&& final(self).aliases() == old(self).aliases()
                &&& final(self).chain_channels() == old(self).chain_channels()
                &&& final(self).denoms() == old(self).denoms()
            },
    {
        proof {
            lemma_namespaces_wf();
        }
        let key = make_channel_to_chain_chain_key(channel_id.as_str(), source_chain.as_str());
        let err = ContractError::ChannelToChainChainLinkDoesNotExist {
            channel_id: channel_id.clone(),
            source_chain: source_chain.clone(),
        };
        match self.remove_entry(channel_prefix(), key.as_str(), err) {
            Ok(()) => Ok(Response::new("remove_channel_to_chain_chain_link")),
            Err(e) => Err(e),
        }
    }

    /// Look up the destination chain linked to a (channel, source) pair.
    pub fn get_channel_to_chain_chain_link(&self, channel_id: &str, source_chain: &str) -> (result:
        Option<String>)
        ensures
            match result {
                Some(destination_chain) => self.channel_chains().contains_key(
                    channel_to_chain_chain_key_spec(channel_id@, source_chain@),
                ) && destination_chain@ == self.channel_chains()[channel_to_chain_chain_key_spec(
                    channel_id@,
                    source_chain@,
                )],
                None => !self.channel_chains().contains_key(
                    channel_to_chain_chain_key_spec(channel_id@, source_chain@),
                ),
            },
    {
        proof {
            lemma_namespaces_wf();
        }
        let key = make_channel_to_chain_chain_key(channel_id, source_chain);
        self.get_entry(channel_prefix(), key.as_str())
    }

    // Denom registry.

    /// Set a native denom -> IBC denom entry. Fails iff the native denom is
    /// already linked.
    pub fn set_native_denom_to_ibc_denom_link(&mut self, native_denom: String, ibc_denom: String)
        -> (result: Result<Response, ContractError>)
        ensures
            old(self).denoms().contains_key(native_denom@) ==> {
                &&& result == Err::<Response, ContractError>(
                    (ContractError::OsmosisDenomLinkAlreadyExists { native_denom }),
                )
                &&& final(self).same_entries(*old(self))
            },
            !old(self).denoms().contains_key(native_denom@) ==> {
                &&& result matches Ok(response) && response.method@
                    == "set_native_denom_to_ibc_denom_link"@
                &&& final(self).denoms() == old(self).denoms().insert(native_denom@, ibc_denom@)
                &&& final(self).aliases() == old(self).aliases()
                &&& final(self).chain_channels() == old(self).chain_channels()
                &&& final(self).channel_chains() == old(self).channel_chains()
            },
    {
        proof {
            lemma_namespaces_wf();
        }
        let err = ContractError::OsmosisDenomLinkAlreadyExists {
            native_denom: native_denom.clone(),
        };
        match self.set_entry(denom_prefix(), native_denom.as_str(), ibc_denom, err) {
            Ok(()) => Ok(Response::new("set_native_denom_to_ibc_denom_link")),
            Err(e) => Err(e),
        }
    }

    /// Change an existing native denom -> IBC denom entry to a new IBC
    /// denom. Fails iff the native denom is not linked.
    pub fn change_native_denom_to_ibc_denom_link(
        &mut self,
        native_denom: String,
        new_ibc_denom: String,
    ) -> (result: Result<Response, ContractError>)
        ensures
            !old(self).denoms().contains_key(native_denom@) ==> {
                &&& result == Err::<Response, ContractError>(
                    (ContractError::OsmosisDenomLinkDoesNotExist { native_denom }),
                )
                &&& final(self).same_entries(*old(self))
            },
            old(self).denoms().contains_key(native_denom@) ==> {
                &&& result matches Ok(response) && response.method@
                    == "change_native_denom_to_ibc_denom_link"@
                &&& final(self).denoms() == old(self).denoms().insert(
                    native_denom@,
                    new_ibc_denom@,
                )
                &&& final(self).aliases() == old(self).aliases()
                &&& final(self).chain_channels() == old(self).chain_channels()
                &&& final(self).channel_chains() == old(self).channel_chains()
            },
    {
        proof {
            lemma_namespaces_wf();
        }
        let err = ContractError::OsmosisDenomLinkDoesNotExist {
            native_denom: native_denom.clone(),
        };
        match self.change_entry(denom_prefix(), native_denom.as_str(), new_ibc_denom, err) {
            Ok(()) => Ok(Response::new("change_native_denom_to_ibc_denom_link")),
            Err(e) => Err(e),
        }
    }

    /// Remove an existing native denom -> IBC denom entry. Fails iff the
    /// native denom is not linked.
    pub fn remove_native_denom_to_ibc_denom_link(&mut self, native_denom: String) -> (result:
        Result<Response, ContractError>)
        ensures
            !old(self).denoms().contains_key(native_denom@) ==> {
                &&& result == Err::<Response, ContractError>(
                    (ContractError::OsmosisDenomLinkDoesNotExist { native_denom }),
                )
                &&& final(self).same_entries(*old(self))
            },
            old(self).denoms().contains_key(native_denom@) ==> {
                &&& result matches Ok(response) && response.method@
                    == "remove_native_denom_to_ibc_denom_link"@
                &&& final(self).denoms() == old(self).denoms().remove(native_denom@)
                &&& final(self).aliases() == old(self).aliases()
                &&& final(self).chain_channels() == old(self).chain_channels()
                &&& final(self).channel_chains() == old(self).channel_chains()
            },
    {
        proof {
            lemma_namespaces_wf();
        }
        let err = ContractError::OsmosisDenomLinkDoesNotExist {
            native_denom: native_denom.clone(),
        };
        match self.remove_entry(denom_prefix(), native_denom.as_str(), err) {
            Ok(()) => Ok(Response::new("remove_native_denom_to_ibc_denom_link")),
            Err(e) => Err(e),
        }
    }

    /// Look up the IBC denom linked to a native denom.
    pub fn get_native_denom_to_ibc_denom_link(&self, native_denom: &str) -> (result: Option<
        String,
    >)
        ensures
            match result {
                Some(ibc_denom) => self.denoms().contains_key(native_denom@) && ibc_denom@
                    == self.denoms()[native_denom@],
                None => !self.denoms().contains_key(native_denom@),
            },
    {
        proof {
            lemma_namespaces_wf();
        }
        self.get_entry(denom_prefix(), native_denom)
    }
}

// What a successful Set, Change or Remove promises about a later lookup,
// stated once over a registry partition's entries.

/// For any key not present in a registry, once Set has bound it to a value
/// (per the set entry points' contracts, the partition becomes its old value
/// with the key inserted), a lookup of that key finds exactly that value.
pub proof fn lemma_set_then_get(entries: Map<Seq<char>, Seq<char>>, key: Seq<char>, value: Seq<
    char,
>)
    requires
        !entries.contains_key(key),
    ensures
        entries.insert(key, value).contains_key(key),
        entries.insert(key, value)[key] == value,
{
}

/// For any key present in a registry, once Change has overwritten it (per
/// the change entry points' contracts), a lookup of that key finds the new
/// value.
pub proof fn lemma_change_then_get(
    entries: Map<Seq<char>, Seq<char>>,
    key: Seq<char>,
    new_value: Seq<char>,
)
    requires
        entries.contains_key(key),
    ensures
        entries.insert(key, new_value).contains_key(key),
        entries.insert(key, new_value)[key] == new_value,
{
}

/// For any key present in a registry, once Remove has deleted it (per the
/// remove entry points' contracts), a presence check of that key fails.
pub proof fn lemma_remove_then_absent(entries: Map<Seq<char>, Seq<char>>, key: Seq<char>)
    requires
        entries.contains_key(key),
    ensures
        !entries.remove(key).contains_key(key),
{
}

} // verus!
