//! Partitioning of the shared durable store.
//!
//! All four registries live in one string-keyed store. Each registry owns a
//! namespace, and an entry with user key `k` in the registry with namespace
//! `ns` is stored under the full key `composite_key(ns, k)`. Because the
//! namespaces are free of the separator and pairwise distinct, the four
//! partitions never collide, and an insert or remove in one partition leaves
//! every other partition untouched.

use vstd::prelude::*;
use vstd::map::*;

use crate::keys::composite_key;
use crate::keys::key_separator;
use crate::keys::lemma_composite_key_injective;
use crate::keys::valid_key_part;

verus! {

/// Namespace of the contract alias registry.
pub open spec fn alias_namespace() -> Seq<char> {
    seq!['a', 'l', 'i', 'a', 's']
}

/// Namespace of the chain-pair channel registry.
pub open spec fn chain_channel_namespace() -> Seq<char> {
    seq!['c', 'h', 'a', 'i', 'n']
}

/// Namespace of the channel-pair chain registry.
pub open spec fn channel_chain_namespace() -> Seq<char> {
    seq!['c', 'h', 'a', 'n', 'n', 'e', 'l']
}

/// Namespace of the denom registry.
pub open spec fn denom_namespace() -> Seq<char> {
    seq!['d', 'e', 'n', 'o', 'm']
}

/// The four namespaces are free of the separator and pairwise distinct.
pub proof fn lemma_namespaces_wf()
    ensures
        valid_key_part(alias_namespace()),
        valid_key_part(chain_channel_namespace()),
        valid_key_part(channel_chain_namespace()),
        valid_key_part(denom_namespace()),
        alias_namespace() != chain_channel_namespace(),
        alias_namespace() != channel_chain_namespace(),
        alias_namespace() != denom_namespace(),
        chain_channel_namespace() != channel_chain_namespace(),
        chain_channel_namespace() != denom_namespace(),
        channel_chain_namespace() != denom_namespace(),
{
    assert forall|i: int| 0 <= i < alias_namespace().len() implies alias_namespace()[i]
        != key_separator() by {
        let s = alias_namespace();
        assert(s[0] == 'a' && s[1] == 'l' && s[2] == 'i' && s[3] == 'a' && s[4] == 's');
    }
    assert forall|i: int| 0 <= i < chain_channel_namespace().len() implies
        chain_channel_namespace()[i] != key_separator() by {
        let s = chain_channel_namespace();
        assert(s[0] == 'c' && s[1] == 'h' && s[2] == 'a' && s[3] == 'i' && s[4] == 'n');
    }
    assert forall|i: int| 0 <= i < channel_chain_namespace().len() implies
        channel_chain_namespace()[i] != key_separator() by {
        let s = channel_chain_namespace();
        assert(s[0] == 'c' && s[1] == 'h' && s[2] == 'a' && s[3] == 'n' && s[4] == 'n' && s[5]
            == 'e' && s[6] == 'l');
    }
    assert forall|i: int| 0 <= i < denom_namespace().len() implies denom_namespace()[i]
        != key_separator() by {
        let s = denom_namespace();
        assert(s[0] == 'd' && s[1] == 'e' && s[2] == 'n' && s[3] == 'o' && s[4] == 'm');
    }
    assert(alias_namespace()[0] == 'a');
    assert(chain_channel_namespace()[0] == 'c');
    assert(channel_chain_namespace()[0] == 'c');
    assert(denom_namespace()[0] == 'd');
    assert(chain_channel_namespace().len() == 5);
    assert(channel_chain_namespace().len() == 7);
}

/// The entries of one registry, read out of the shared store: user key `k`
/// maps to `v` iff the store maps `composite_key(ns, k)` to `v`.
pub open spec fn partition(store: Map<Seq<char>, Seq<char>>, ns: Seq<char>) -> Map<
    Seq<char>,
    Seq<char>,
> {
    Map::new(
        |key: Seq<char>| store.contains_key(composite_key(ns, key)),
        |key: Seq<char>| store[composite_key(ns, key)],
    )
}

/// Writing a namespaced key into the store inserts the user key into that
/// namespace's partition.
pub proof fn lemma_partition_insert_same(
    store: Map<Seq<char>, Seq<char>>,
    ns: Seq<char>,
    key: Seq<char>,
    value: Seq<char>,
)
    requires
        valid_key_part(ns),
    ensures
        partition(store.insert(composite_key(ns, key), value), ns) == partition(
            store,
            ns,
        ).insert(key, value),
{
    let left = partition(store.insert(composite_key(ns, key), value), ns);
    let right = partition(store, ns).insert(key, value);
    assert_maps_equal!(left, right, k => {
        if composite_key(ns, k) == composite_key(ns, key) {
            lemma_composite_key_injective(ns, k, ns, key);
        }
    });
}

/// Writing a namespaced key into the store leaves every other namespace's
/// partition unchanged.
pub proof fn lemma_partition_insert_other(
    store: Map<Seq<char>, Seq<char>>,
    ns_written: Seq<char>,
    ns_other: Seq<char>,
    key: Seq<char>,
    value: Seq<char>,
)
    requires
        valid_key_part(ns_written),
        valid_key_part(ns_other),
        ns_written != ns_other,
    ensures
        partition(store.insert(composite_key(ns_written, key), value), ns_other) == partition(
            store,
            ns_other,
        ),
{
    let left = partition(store.insert(composite_key(ns_written, key), value), ns_other);
    let right = partition(store, ns_other);
    assert_maps_equal!(left, right, k => {
        if composite_key(ns_other, k) == composite_key(ns_written, key) {
            lemma_composite_key_injective(ns_other, k, ns_written, key);
        }
    });
}

/// Deleting a namespaced key from the store removes the user key from that
/// namespace's partition.
pub proof fn lemma_partition_remove_same(
    store: Map<Seq<char>, Seq<char>>,
    ns: Seq<char>,
    key: Seq<char>,
)
    requires
        valid_key_part(ns),
    ensures
        partition(store.remove(composite_key(ns, key)), ns) == partition(store, ns).remove(key),
{
    let left = partition(store.remove(composite_key(ns, key)), ns);
    let right = partition(store, ns).remove(key);
    assert_maps_equal!(left, right, k => {
        if composite_key(ns, k) == composite_key(ns, key) {
            lemma_composite_key_injective(ns, k, ns, key);
        }
    });
}

/// Deleting a namespaced key from the store leaves every other namespace's
/// partition unchanged.
pub proof fn lemma_partition_remove_other(
    store: Map<Seq<char>, Seq<char>>,
    ns_removed: Seq<char>,
    ns_other: Seq<char>,
    key: Seq<char>,
)
    requires
        valid_key_part(ns_removed),
        valid_key_part(ns_other),
        ns_removed != ns_other,
    ensures
        partition(store.remove(composite_key(ns_removed, key)), ns_other) == partition(
            store,
            ns_other,
        ),
{
    let left = partition(store.remove(composite_key(ns_removed, key)), ns_other);
    let right = partition(store, ns_other);
    assert_maps_equal!(left, right, k => {
        if composite_key(ns_other, k) == composite_key(ns_removed, key) {
            lemma_composite_key_injective(ns_other, k, ns_removed, key);
        }
    });
}

} // verus!
