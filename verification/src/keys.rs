//! Canonical composite-key derivation.
//!
//! The two paired registries index their entries by a single string derived
//! from two input fields, and all four registries share one durable store
//! whose keys are prefixed with a per-registry namespace. Both derivations
//! join the two parts with a separator character that valid first components
//! never contain, which makes the derivation injective: distinct pairs never
//! collide onto the same key.

use vstd::prelude::*;
use vstd::string::StringExecFns;

verus! {

/// The character placed between the two parts of a composite key. Valid
/// chain identifiers, channel identifiers and namespaces never contain it.
pub open spec fn key_separator() -> char {
    '/'
}

/// A string may stand as the first component of a composite key iff it does
/// not contain the separator. (The second component is unconstrained.)
pub open spec fn valid_key_part(s: Seq<char>) -> bool {
    forall|i: int| 0 <= i < s.len() ==> s[i] != key_separator()
}

/// The composite of two fields: first part, separator, second part.
pub open spec fn composite_key(a: Seq<char>, b: Seq<char>) -> Seq<char> {
    a + seq![key_separator()] + b
}

/// The key under which a (source chain, destination chain) pair is stored in
/// the chain-pair channel registry.
pub open spec fn chain_to_chain_channel_key_spec(
    source_chain: Seq<char>,
    destination_chain: Seq<char>,
) -> Seq<char> {
    composite_key(source_chain, destination_chain)
}

/// The key under which a (channel id, source chain) pair is stored in the
/// channel-pair chain registry.
pub open spec fn channel_to_chain_chain_key_spec(
    channel_id: Seq<char>,
    source_chain: Seq<char>,
) -> Seq<char> {
    composite_key(channel_id, source_chain)
}

/// Joins two fields with the separator.
pub(crate) fn join_key_parts(a: &str, b: &str) -> (key: String)
    ensures
        key@ == composite_key(a@, b@),
{
    let mut key: String = a.to_owned();
    key.append("/");
    key.append(b);
    proof {
        reveal_strlit("/");
        assert(("/")@ =~= seq![key_separator()]);
        assert(key@ =~= composite_key(a@, b@));
    }
    key
}

/// Derives the composite key for the chain-pair channel registry.
pub fn make_chain_to_chain_channel_key(source_chain: &str, destination_chain: &str) -> (key:
    String)
    ensures
        key@ == chain_to_chain_channel_key_spec(source_chain@, destination_chain@),
{
    join_key_parts(source_chain, destination_chain)
}

/// Derives the composite key for the channel-pair chain registry.
pub fn make_channel_to_chain_chain_key(channel_id: &str, source_chain: &str) -> (key: String)
    ensures
        key@ == channel_to_chain_chain_key_spec(channel_id@, source_chain@),
{
    join_key_parts(channel_id, source_chain)
}

/// The key derivation is injective: equal composites imply equal parts,
/// whenever the first components are free of the separator.
pub proof fn lemma_composite_key_injective(
    a1: Seq<char>,
    b1: Seq<char>,
    a2: Seq<char>,
    b2: Seq<char>,
)
    requires
        valid_key_part(a1),
        valid_key_part(a2),
        composite_key(a1, b1) == composite_key(a2, b2),
    ensures
        a1 == a2,
        b1 == b2,
{
    let k1 = composite_key(a1, b1);
    let k2 = composite_key(a2, b2);
    assert(k1.len() == a1.len() + 1 + b1.len());
    assert(k2.len() == a2.len() + 1 + b2.len());
    if a1.len() < a2.len() {
        assert(k1[a1.len() as int] == key_separator());
        assert(k2[a1.len() as int] == a2[a1.len() as int]);
        assert(false);
    } else if a2.len() < a1.len() {
        assert(k2[a2.len() as int] == key_separator());
        assert(k1[a2.len() as int] == a1[a2.len() as int]);
        assert(false);
    } else {
        assert(a1 =~= a2) by {
            assert(forall|i: int| 0 <= i < a1.len() ==> k1[i] == a1[i] && k2[i] == a2[i]);
        }
        assert(b1 =~= b2) by {
            assert(forall|i: int|
                0 <= i < b1.len() ==> k1[a1.len() + 1 + i] == b1[i] && k2[a2.len() + 1 + i]
                    == b2[i]);
        }
    }
}

/// Composite-key injectivity for the chain-pair channel registry: two
/// distinct (source, destination) pairs from the valid input domain never
/// share a key.
pub proof fn lemma_chain_to_chain_channel_key_injective(
    source_chain1: Seq<char>,
    destination_chain1: Seq<char>,
    source_chain2: Seq<char>,
    destination_chain2: Seq<char>,
)
    requires
        valid_key_part(source_chain1),
        valid_key_part(source_chain2),
        source_chain1 != source_chain2 || destination_chain1 != destination_chain2,
    ensures
        chain_to_chain_channel_key_spec(source_chain1, destination_chain1)
            != chain_to_chain_channel_key_spec(source_chain2, destination_chain2),
{
    if chain_to_chain_channel_key_spec(source_chain1, destination_chain1)
        == chain_to_chain_channel_key_spec(source_chain2, destination_chain2) {
        lemma_composite_key_injective(
            source_chain1,
            destination_chain1,
            source_chain2,
            destination_chain2,
        );
    }
}

/// Composite-key injectivity for the channel-pair chain registry: two
/// distinct (channel, source) pairs from the valid input domain never share
/// a key.
pub proof fn lemma_channel_to_chain_chain_key_injective(
    channel_id1: Seq<char>,
    source_chain1: Seq<char>,
    channel_id2: Seq<char>,
    source_chain2: Seq<char>,
)
    requires
        valid_key_part(channel_id1),
        valid_key_part(channel_id2),
        channel_id1 != channel_id2 || source_chain1 != source_chain2,
    ensures
        channel_to_chain_chain_key_spec(channel_id1, source_chain1)
            != channel_to_chain_chain_key_spec(channel_id2, source_chain2),
{
    if channel_to_chain_chain_key_spec(channel_id1, source_chain1)
        == channel_to_chain_chain_key_spec(channel_id2, source_chain2) {
        lemma_composite_key_injective(channel_id1, source_chain1, channel_id2, source_chain2);
    }
}

} // verus!
