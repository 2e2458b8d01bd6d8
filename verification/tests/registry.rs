//! Registry tests: construction, event creation, claiming, queries and the
//! creator-approval workflow.

use poap::{Spot, SpotError};

const MAX_TIME: u64 = u64::MAX;

#[test]
fn test_constructor() {
    let admin: u64 = 1;
    let spot = Spot::new(admin);

    let stored_admin = spot.admin().unwrap();
    assert_eq!(stored_admin, admin);

    let event_count = spot.event_count();
    assert_eq!(event_count, 0);
}

#[test]
fn test_create_event() {
    let admin: u64 = 1;
    let mut spot = Spot::new(admin);

    let event_name = String::from("Hackathon Stellar 2024");
    let event_date = 1735689600u64;
    let location = String::from("Bogotá, Colombia");
    let description = String::from("Annual Stellar Hackathon");
    let max_poaps = 100u32;
    let claim_start = 1735689600u64;
    let claim_end = 1736294400u64;
    let metadata_uri = String::from("https://example.com/metadata.json");
    let image_url = String::from("https://example.com/image.png");

    let event_id = spot
        .create_event(
            admin,
            event_name.clone(),
            event_date,
            location.clone(),
            description.clone(),
            max_poaps,
            claim_start,
            claim_end,
            metadata_uri.clone(),
            image_url.clone(),
        )
        .unwrap();

    assert_eq!(event_id, 1);

    let event_data = spot.get_event(event_id).unwrap();
    assert_eq!(event_data.event_id, 1);
    assert_eq!(event_data.event_name, event_name);
    assert_eq!(event_data.event_date, event_date);
    assert_eq!(event_data.location, location);
    assert_eq!(event_data.max_poaps, max_poaps);
    assert_eq!(event_data.creator, admin);

    let minted = spot.minted_count(event_id).unwrap();
    assert_eq!(minted, 0);

    let event_count = spot.event_count();
    assert_eq!(event_count, 1);
}

#[test]
fn test_create_multiple_events() {
    let admin: u64 = 1;
    let mut spot = Spot::new(admin);

    let event_id1 = spot
        .create_event(
            admin,
            String::from("Event 1"),
            1735689600u64,
            String::from("Location 1"),
            String::from("Description 1"),
            50u32,
            0u64,
            MAX_TIME,
            String::from("https://example.com/metadata1.json"),
            String::from("https://example.com/image1.png"),
        )
        .unwrap();

    let event_id2 = spot
        .create_event(
            admin,
            String::from("Event 2"),
            1735689600u64,
            String::from("Location 2"),
            String::from("Description 2"),
            30u32,
            0u64,
            MAX_TIME,
            String::from("https://example.com/metadata2.json"),
            String::from("https://example.com/image2.png"),
        )
        .unwrap();

    assert_eq!(event_id1, 1);
    assert_eq!(event_id2, 2);

    let event_count = spot.event_count();
    assert_eq!(event_count, 2);

    let event1 = spot.get_event(event_id1).unwrap();
    let event2 = spot.get_event(event_id2).unwrap();

    assert_eq!(event1.event_name, String::from("Event 1"));
    assert_eq!(event2.event_name, String::from("Event 2"));
}

#[test]
fn test_claim() {
    let admin: u64 = 1;
    let recipient: u64 = 2;
    let mut spot = Spot::new(admin);

    let event_id = spot
        .create_event(
            admin,
            String::from("Test Event"),
            1735689600u64,
            String::from("Test Location"),
            String::from("Test Description"),
            10u32,
            0u64,
            MAX_TIME,
            String::from("https://example.com/metadata.json"),
            String::from("https://example.com/image.png"),
        )
        .unwrap();

    let token_id = spot.claim(0, event_id, recipient).unwrap();
    assert_eq!(token_id, 0);

    assert!(spot.has_claimed(event_id, recipient));
    assert!(!spot.has_claimed(event_id, 3));

    let minted = spot.minted_count(event_id).unwrap();
    assert_eq!(minted, 1);

    let result = spot.claim(0, event_id, recipient);
    assert_eq!(result.unwrap_err(), SpotError::AlreadyClaimed);
}

#[test]
fn test_has_claimed() {
    let admin: u64 = 1;
    let recipient: u64 = 2;
    let mut spot = Spot::new(admin);

    let event_id = spot
        .create_event(
            admin,
            String::from("Test Event"),
            1735689600u64,
            String::from("Test Location"),
            String::from("Test Description"),
            10u32,
            0u64,
            MAX_TIME,
            String::from("https://example.com/metadata.json"),
            String::from("https://example.com/image.png"),
        )
        .unwrap();

    assert!(!spot.has_claimed(event_id, recipient));

    spot.claim(0, event_id, recipient).unwrap();

    assert!(spot.has_claimed(event_id, recipient));
}

#[test]
fn test_minted_count() {
    let admin: u64 = 1;
    let mut spot = Spot::new(admin);

    let event_id = spot
        .create_event(
            admin,
            String::from("Test Event"),
            1735689600u64,
            String::from("Test Location"),
            String::from("Test Description"),
            10u32,
            0u64,
            MAX_TIME,
            String::from("https://example.com/metadata.json"),
            String::from("https://example.com/image.png"),
        )
        .unwrap();

    let minted = spot.minted_count(event_id).unwrap();
    assert_eq!(minted, 0);

    let recipient1: u64 = 2;
    let recipient2: u64 = 3;

    spot.claim(0, event_id, recipient1).unwrap();
    let minted = spot.minted_count(event_id).unwrap();
    assert_eq!(minted, 1);

    spot.claim(0, event_id, recipient2).unwrap();
    let minted = spot.minted_count(event_id).unwrap();
    assert_eq!(minted, 2);
}

#[test]
fn test_limit_exceeded() {
    let admin: u64 = 1;
    let mut spot = Spot::new(admin);

    let event_id = spot
        .create_event(
            admin,
            String::from("Test Event"),
            1735689600u64,
            String::from("Test Location"),
            String::from("Test Description"),
            2u32,
            0u64,
            MAX_TIME,
            String::from("https://example.com/metadata.json"),
            String::from("https://example.com/image.png"),
        )
        .unwrap();

    let recipient1: u64 = 2;
    let recipient2: u64 = 3;
    spot.claim(0, event_id, recipient1).unwrap();
    spot.claim(0, event_id, recipient2).unwrap();

    let recipient3: u64 = 4;
    let result = spot.claim(0, event_id, recipient3);
    assert_eq!(result.unwrap_err(), SpotError::LimitExceeded);
}

#[test]
fn test_invalid_max_poaps() {
    let admin: u64 = 1;
    let mut spot = Spot::new(admin);

    let result = spot.create_event(
        admin,
        String::from("Test Event"),
        1735689600u64,
        String::from("Test Location"),
        String::from("Test Description"),
        0u32,
        0u64,
        MAX_TIME,
        String::from("https://example.com/metadata.json"),
        String::from("https://example.com/image.png"),
    );

    assert_eq!(result.unwrap_err(), SpotError::InvalidParameters);
}

#[test]
fn test_invalid_claim_period() {
    let admin: u64 = 1;
    let mut spot = Spot::new(admin);

    let result = spot.create_event(
        admin,
        String::from("Test Event"),
        1735689600u64,
        String::from("Test Location"),
        String::from("Test Description"),
        10u32,
        100u64,
        50u64,
        String::from("https://example.com/metadata.json"),
        String::from("https://example.com/image.png"),
    );

    assert_eq!(result.unwrap_err(), SpotError::InvalidParameters);
}

#[test]
fn test_event_not_found() {
    let admin: u64 = 1;
    let recipient: u64 = 2;
    let mut spot = Spot::new(admin);

    let result = spot.claim(0, 999, recipient);
    assert_eq!(result.unwrap_err(), SpotError::EventNotFound);

    let result = spot.get_event(999);
    assert_eq!(result.unwrap_err(), SpotError::EventNotFound);
}

#[test]
fn test_get_all_events() {
    let admin: u64 = 1;
    let mut spot = Spot::new(admin);

    let event_id1 = spot
        .create_event(
            admin,
            String::from("Event 1"),
            1735689600u64,
            String::from("Location 1"),
            String::from("Description 1"),
            10u32,
            0u64,
            MAX_TIME,
            String::from("https://example.com/metadata1.json"),
            String::from("https://example.com/image1.png"),
        )
        .unwrap();

    let event_id2 = spot
        .create_event(
            admin,
            String::from("Event 2"),
            1735689600u64,
            String::from("Location 2"),
            String::from("Description 2"),
            10u32,
            0u64,
            MAX_TIME,
            String::from("https://example.com/metadata2.json"),
            String::from("https://example.com/image2.png"),
        )
        .unwrap();

    let all_events = spot.get_all_events();
    assert_eq!(all_events.len(), 2);
    assert_eq!(all_events[0], event_id1);
    assert_eq!(all_events[1], event_id2);
}

#[test]
fn test_creator_requires_backend_approval() {
    let admin: u64 = 1;
    let creator: u64 = 2;
    let mut spot = Spot::new(admin);

    let event_result = spot.create_event(
        creator,
        String::from("Community Meetup"),
        1735689600u64,
        String::from("Buenos Aires"),
        String::from("Monthly meetup"),
        10u32,
        0u64,
        MAX_TIME,
        String::from("https://example.com/metadata.json"),
        String::from("https://example.com/image.png"),
    );

    assert_eq!(event_result.unwrap_err(), SpotError::CreatorNotApproved);

    spot.approve_creator(0, admin, creator, String::from("invoice-123"))
        .unwrap();

    let event_id = spot
        .create_event(
            creator,
            String::from("Community Meetup"),
            1735689600u64,
            String::from("Buenos Aires"),
            String::from("Monthly meetup"),
            10u32,
            0u64,
            MAX_TIME,
            String::from("https://example.com/metadata.json"),
            String::from("https://example.com/image.png"),
        )
        .unwrap();

    assert_eq!(event_id, 1);

    let approval = spot.get_creator_approval(creator).unwrap();
    assert_eq!(approval.payment_reference, String::from("invoice-123"));
    assert_eq!(approval.approved_by, admin);
}

#[test]
fn test_revoke_creator_approval_blocks_future_events() {
    let admin: u64 = 1;
    let creator: u64 = 2;
    let mut spot = Spot::new(admin);

    spot.approve_creator(0, admin, creator, String::from("invoice-456"))
        .unwrap();

    spot.create_event(
        creator,
        String::from("First Event"),
        1735689600u64,
        String::from("Quito"),
        String::from("Description"),
        5u32,
        0u64,
        MAX_TIME,
        String::from("https://example.com/metadata.json"),
        String::from("https://example.com/image.png"),
    )
    .unwrap();

    spot.revoke_creator_approval(admin, creator).unwrap();

    let result = spot.create_event(
        creator,
        String::from("Second Event"),
        1735689600u64,
        String::from("Quito"),
        String::from("Description"),
        5u32,
        0u64,
        MAX_TIME,
        String::from("https://example.com/metadata.json"),
        String::from("https://example.com/image.png"),
    );

    assert_eq!(result.unwrap_err(), SpotError::CreatorNotApproved);
}
