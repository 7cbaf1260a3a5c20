use crosschain_registry::ContractError;
use crosschain_registry::Registry;

#[test]
fn test_set_chain_channel_link_success() {
    let mut registry = Registry::new();

    // Set the canonical channel link between osmosis and cosmos to channel-0
    registry
        .set_chain_to_chain_channel_link(
            "osmosis".to_string(),
            "cosmos".to_string(),
            "channel-0".to_string(),
        )
        .unwrap();

    assert_eq!(
        registry.get_chain_to_chain_channel_link("osmosis", "cosmos").unwrap(),
        "channel-0"
    );
}

#[test]
fn test_set_chain_channel_link_fail_existing_link() {
    let mut registry = Registry::new();

    // Set the canonical channel link between osmosis and cosmos to channel-0
    let result = registry.set_chain_to_chain_channel_link(
        "osmosis".to_string(),
        "cosmos".to_string(),
        "channel-0".to_string(),
    );
    assert!(result.is_ok());

    // Attempt to set the canonical channel link between osmosis and cosmos to channel-150
    // This should fail because the link already exists
    let result = registry.set_chain_to_chain_channel_link(
        "osmosis".to_string(),
        "cosmos".to_string(),
        "channel-150".to_string(),
    );
    assert!(result.is_err());

    let expected_error = ContractError::ChainToChainChannelLinkAlreadyExists {
        source_chain: "osmosis".to_string(),
        destination_chain: "cosmos".to_string(),
    };
    assert_eq!(result.unwrap_err(), expected_error);
    assert_eq!(
        registry.get_chain_to_chain_channel_link("osmosis", "cosmos").unwrap(),
        "channel-0"
    );
}

#[test]
fn test_change_chain_channel_link_success() {
    let mut registry = Registry::new();

    // Set the canonical channel link between osmosis and cosmos to channel-0
    let result = registry.set_chain_to_chain_channel_link(
        "osmosis".to_string(),
        "cosmos".to_string(),
        "channel-0".to_string(),
    );
    assert!(result.is_ok());

    // Change the canonical channel link between osmosis and cosmos to channel-150
    let result = registry.change_chain_to_chain_channel_link(
        "osmosis".to_string(),
        "cosmos".to_string(),
        "channel-150".to_string(),
    );
    assert!(result.is_ok());

    // Verify that the channel between osmosis and cosmos has changed from channel-0 to channel-150
    assert_eq!(
        registry.get_chain_to_chain_channel_link("osmosis", "cosmos").unwrap(),
        "channel-150"
    );
}

#[test]
fn test_change_chain_channel_link_fail_non_existing_link() {
    let mut registry = Registry::new();

    // Attempt to change a channel link that does not exist
    let result = registry.change_chain_to_chain_channel_link(
        "osmosis".to_string(),
        "cosmos".to_string(),
        "channel-0".to_string(),
    );
    assert!(result.is_err());

    let expected_error = ContractError::ChainChannelLinkDoesNotExist {
        source_chain: "osmosis".to_string(),
        destination_chain: "cosmos".to_string(),
    };
    assert_eq!(result.unwrap_err(), expected_error);
}

#[test]
fn test_remove_chain_channel_link_success() {
    let mut registry = Registry::new();

    // Set the canonical channel link between osmosis and cosmos to channel-0
    registry
        .set_chain_to_chain_channel_link(
            "osmosis".to_string(),
            "cosmos".to_string(),
            "channel-0".to_string(),
        )
        .unwrap();

    // Remove the link
    registry
        .remove_chain_to_chain_channel_link("osmosis".to_string(), "cosmos".to_string())
        .unwrap();

    // Verify that the link no longer exists
    assert!(registry.get_chain_to_chain_channel_link("osmosis", "cosmos").is_none());
}

#[test]
fn test_remove_chain_channel_link_fail_nonexistent_link() {
    let mut registry = Registry::new();

    // Attempt to remove a link that does not exist
    let result =
        registry.remove_chain_to_chain_channel_link("osmosis".to_string(), "cosmos".to_string());

    let expected_error = ContractError::ChainChannelLinkDoesNotExist {
        source_chain: "osmosis".to_string(),
        destination_chain: "cosmos".to_string(),
    };
    assert_eq!(result.unwrap_err(), expected_error);
}

#[test]
fn test_reversed_chain_pair_is_a_distinct_key() {
    let mut registry = Registry::new();
    registry
        .set_chain_to_chain_channel_link(
            "osmosis".to_string(),
            "cosmos".to_string(),
            "channel-0".to_string(),
        )
        .unwrap();

    // The pair is ordered: (cosmos, osmosis) is not linked yet
    assert!(registry.get_chain_to_chain_channel_link("cosmos", "osmosis").is_none());
    registry
        .set_chain_to_chain_channel_link(
            "cosmos".to_string(),
            "osmosis".to_string(),
            "channel-141".to_string(),
        )
        .unwrap();
    assert_eq!(
        registry.get_chain_to_chain_channel_link("osmosis", "cosmos").unwrap(),
        "channel-0"
    );
    assert_eq!(
        registry.get_chain_to_chain_channel_link("cosmos", "osmosis").unwrap(),
        "channel-141"
    );
}
