use crosschain_registry::make_chain_to_chain_channel_key;
use crosschain_registry::make_channel_to_chain_chain_key;

#[test]
fn test_chain_to_chain_channel_key_format() {
    let key = make_chain_to_chain_channel_key("osmosis", "cosmos");
    assert_eq!(key, "osmosis/cosmos");
}

#[test]
fn test_channel_to_chain_chain_key_format() {
    let key = make_channel_to_chain_chain_key("channel-0", "osmosis");
    assert_eq!(key, "channel-0/osmosis");
}

#[test]
fn test_composite_keys_of_distinct_pairs_differ() {
    // Same concatenation of characters, split differently
    assert_ne!(
        make_chain_to_chain_channel_key("osmo", "siscosmos"),
        make_chain_to_chain_channel_key("osmosis", "cosmos")
    );
    // Swapped order
    assert_ne!(
        make_chain_to_chain_channel_key("osmosis", "cosmos"),
        make_chain_to_chain_channel_key("cosmos", "osmosis")
    );
    // One field shared
    assert_ne!(
        make_channel_to_chain_chain_key("channel-0", "osmosis"),
        make_channel_to_chain_chain_key("channel-1", "osmosis")
    );
    assert_ne!(
        make_channel_to_chain_chain_key("channel-0", "osmosis"),
        make_channel_to_chain_chain_key("channel-0", "cosmos")
    );
}

#[test]
fn test_empty_fields_still_distinct() {
    assert_ne!(
        make_chain_to_chain_channel_key("", "osmosis"),
        make_chain_to_chain_channel_key("osmosis", "")
    );
    assert_eq!(make_chain_to_chain_channel_key("", ""), "/");
}
