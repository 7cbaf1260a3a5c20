use crosschain_registry::ContractError;
use crosschain_registry::Registry;

#[test]
fn test_set_channel_to_chain_link_success() {
    let mut registry = Registry::new();

    // Set channel-0 link from osmosis to cosmos
    let result = registry.set_channel_to_chain_chain_link(
        "channel-0".to_string(),
        "osmosis".to_string(),
        "cosmos".to_string(),
    );
    assert!(result.is_ok());

    // Verify that channel-0 on osmosis is linked to cosmos
    assert_eq!(
        registry.get_channel_to_chain_chain_link("channel-0", "osmosis").unwrap(),
        "cosmos"
    );
}

#[test]
fn test_set_channel_to_chain_link_fail_existing_link() {
    let mut registry = Registry::new();

    // Set channel-0 link from osmosis to cosmos
    let result = registry.set_channel_to_chain_chain_link(
        "channel-0".to_string(),
        "osmosis".to_string(),
        "cosmos".to_string(),
    );
    assert!(result.is_ok());

    // Attempt to set channel-0 link from osmosis to regen
    let result = registry.set_channel_to_chain_chain_link(
        "channel-0".to_string(),
        "osmosis".to_string(),
        "regen".to_string(),
    );
    assert!(result.is_err());

    let expected_error = ContractError::ChannelToChainChainLinkAlreadyExists {
        channel_id: "channel-0".to_string(),
        source_chain: "osmosis".to_string(),
    };
    assert_eq!(result.unwrap_err(), expected_error);
    assert_eq!(
        registry.get_channel_to_chain_chain_link("channel-0", "osmosis").unwrap(),
        "cosmos"
    );
}

#[test]
fn test_change_channel_to_chain_link_success() {
    let mut registry = Registry::new();

    // Set channel-0 link from osmosis to cosmos
    let result = registry.set_channel_to_chain_chain_link(
        "channel-0".to_string(),
        "osmosis".to_string(),
        "cosmos".to_string(),
    );
    assert!(result.is_ok());

    // Change channel-0 link from osmosis to regen
    let result = registry.change_channel_to_chain_chain_link(
        "channel-0".to_string(),
        "osmosis".to_string(),
        "regen".to_string(),
    );
    assert!(result.is_ok());

    // Verify that channel-0 on osmosis is linked to regen
    assert_eq!(
        registry.get_channel_to_chain_chain_link("channel-0", "osmosis").unwrap(),
        "regen"
    );
}

#[test]
fn test_change_channel_to_chain_link_fail_nonexistent_link() {
    let mut registry = Registry::new();

    // Attempt to change a link that does not exist
    let result = registry.change_channel_to_chain_chain_link(
        "channel-0".to_string(),
        "osmosis".to_string(),
        "regen".to_string(),
    );

    let expected_error = ContractError::ChannelToChainChainLinkDoesNotExist {
        channel_id: "channel-0".to_string(),
        source_chain: "osmosis".to_string(),
    };
    assert_eq!(result.unwrap_err(), expected_error);
}

#[test]
fn test_remove_channel_to_chain_link_success() {
    let mut registry = Registry::new();

    // Set channel-0 link from osmosis to cosmos
    let result = registry.set_channel_to_chain_chain_link(
        "channel-0".to_string(),
        "osmosis".to_string(),
        "cosmos".to_string(),
    );
    assert!(result.is_ok());

    // Remove channel-0 link from osmosis to cosmos
    let result =
        registry.remove_channel_to_chain_chain_link("channel-0".to_string(), "osmosis".to_string());
    assert!(result.is_ok());

    // Verify that the link no longer exists
    assert!(registry.get_channel_to_chain_chain_link("channel-0", "osmosis").is_none());
}

#[test]
fn test_remove_channel_to_chain_link_fail_nonexistent_link() {
    let mut registry = Registry::new();

    // Attempt to remove a link that does not exist
    let result =
        registry.remove_channel_to_chain_chain_link("channel-0".to_string(), "osmosis".to_string());

    let expected_error = ContractError::ChannelToChainChainLinkDoesNotExist {
        channel_id: "channel-0".to_string(),
        source_chain: "osmosis".to_string(),
    };
    assert_eq!(result.unwrap_err(), expected_error);
}

#[test]
fn test_channel_registry_independent_of_chain_registry() {
    let mut registry = Registry::new();

    // Link the pair (osmosis, cosmos) to channel-0 in the chain-pair registry
    registry
        .set_chain_to_chain_channel_link(
            "osmosis".to_string(),
            "cosmos".to_string(),
            "channel-0".to_string(),
        )
        .unwrap();

    // The channel-pair registry is not kept consistent with it: no entry
    assert!(registry.get_channel_to_chain_chain_link("channel-0", "osmosis").is_none());

    // Removing from the channel-pair registry still fails
    let result =
        registry.remove_channel_to_chain_chain_link("channel-0".to_string(), "osmosis".to_string());
    assert!(result.is_err());

    // And the chain-pair entry is still there
    assert_eq!(
        registry.get_chain_to_chain_channel_link("osmosis", "cosmos").unwrap(),
        "channel-0"
    );
}
