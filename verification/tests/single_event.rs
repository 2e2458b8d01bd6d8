//! Tests of the single-event variant: construction, minting and the cap.

use poap::{SpotEvent, SpotEventError};

#[test]
fn test_test_constructor() {
    let owner: u64 = 1;

    let event_name = String::from("Hackathon Stellar 2024");
    let event_date = 1735689600u64; // Example timestamp
    let location = String::from("Bogotá, Colombia");
    let description = String::from("Annual Stellar Hackathon");
    let max_nfts = 100u32;
    let claim_start = 1735689600u64;
    let claim_end = 1736294400u64; // 1 week later
    let metadata_uri = String::from("https://example.com/metadata.json");
    let image_url = String::from("https://example.com/image.png");

    let event = SpotEvent::new(
        owner,
        event_name.clone(),
        event_date,
        location.clone(),
        description.clone(),
        max_nfts,
        claim_start,
        claim_end,
        metadata_uri.clone(),
        image_url.clone(),
    );

    let stored_owner = event.owner().unwrap();
    assert_eq!(stored_owner, owner);

    let (name, date, loc, _desc, max, minted, _start, _end, _uri, _img) = event.get_event_info();
    assert_eq!(name, event_name);
    assert_eq!(date, event_date);
    assert_eq!(loc, location);
    assert_eq!(max, max_nfts);
    assert_eq!(minted, 0);
}

#[test]
fn test_mint() {
    let owner: u64 = 1;
    let recipient: u64 = 2;

    let event_name = String::from("Test Event");
    let event_date = 1735689600u64;
    let location = String::from("Test Location");
    let description = String::from("Test Description");
    let max_nfts = 10u32;
    let claim_start = 0u64; // Start immediately for testing
    let claim_end = u64::MAX; // Never end for testing
    let metadata_uri = String::from("https://example.com/metadata.json");
    let image_url = String::from("https://example.com/image.png");

    let mut event = SpotEvent::new(
        owner,
        event_name,
        event_date,
        location,
        description,
        max_nfts,
        claim_start,
        claim_end,
        metadata_uri,
        image_url,
    );

    // Test mint
    let token_id = event.mint(0, recipient).unwrap();
    assert_eq!(token_id, 0);

    // Check has_minted
    assert!(event.has_minted(recipient));
    assert!(!event.has_minted(3));

    // Test duplicate mint should fail
    let result = event.mint(0, recipient);
    assert!(result.is_err());
    assert_eq!(result.unwrap_err(), SpotEventError::AlreadyMinted);
}

#[test]
fn test_test_limit_exceeded() {
    let owner: u64 = 1;

    let event_name = String::from("Test Event");
    let event_date = 1735689600u64;
    let location = String::from("Test Location");
    let description = String::from("Test Description");
    let max_nfts = 2u32; // Limit to 2 NFTs
    let claim_start = 0u64;
    let claim_end = u64::MAX;
    let metadata_uri = String::from("https://example.com/metadata.json");
    let image_url = String::from("https://example.com/image.png");

    let mut event = SpotEvent::new(
        owner,
        event_name,
        event_date,
        location,
        description,
        max_nfts,
        claim_start,
        claim_end,
        metadata_uri,
        image_url,
    );

    // Mint 2 NFTs
    let recipient1: u64 = 2;
    let recipient2: u64 = 3;
    event.mint(0, recipient1).unwrap();
    event.mint(0, recipient2).unwrap();

    // Third mint should fail
    let recipient3: u64 = 4;
    let result = event.mint(0, recipient3);
    assert!(result.is_err());
    assert_eq!(result.unwrap_err(), SpotEventError::LimitExceeded);
}
