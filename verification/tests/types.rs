use membrid::error::{usize_to_decimal, MembridError};
use membrid::types::{compute_memory_id, memory_id_to_hex, EntityKind, Episode, Role};

#[test]
fn role_names() {
    assert_eq!(Role::User.as_str(), "user");
    assert_eq!(Role::Assistant.as_str(), "assistant");
    assert_eq!(Role::System.as_str(), "system");
}

#[test]
fn entity_kind_names() {
    assert_eq!(EntityKind::Person.as_str(), "person");
    assert_eq!(EntityKind::Organization.as_str(), "organization");
    assert_eq!(EntityKind::Location.as_str(), "location");
    assert_eq!(EntityKind::Event.as_str(), "event");
    assert_eq!(EntityKind::Object.as_str(), "object");
    assert_eq!(EntityKind::Concept.as_str(), "concept");
    assert_eq!(EntityKind::Custom("device".to_string()).as_str(), "device");
}

#[test]
fn memory_id_is_blake3_prefix_of_content_and_le_timestamp() {
    let mut input = b"hello".to_vec();
    input.extend_from_slice(&1_700_000_000_000u64.to_le_bytes());
    let digest = blake3::hash(&input);
    let id = compute_memory_id("hello", 1_700_000_000_000);
    assert_eq!(&id[..], &digest.as_bytes()[..16]);
}

#[test]
fn memory_id_changes_with_timestamp() {
    assert_ne!(compute_memory_id("hello", 1), compute_memory_id("hello", 2));
    assert_eq!(compute_memory_id("hello", 1), compute_memory_id("hello", 1));
}

#[test]
fn memory_id_hex_is_lowercase_two_digits_per_byte() {
    let id = [0x00, 0x01, 0xab, 0xff, 0x10, 0x2c, 0x3d, 0x4e, 0x5f, 0x60, 0x71, 0x82, 0x93, 0xa4, 0xb5, 0xc6];
    assert_eq!(memory_id_to_hex(&id), "0001abff102c3d4e5f60718293a4b5c6");
}

#[test]
fn episode_new_at_is_content_addressed() {
    let e = Episode::new_at("s1", Role::System, "be brief", 42);
    assert_eq!(e.id, compute_memory_id("be brief", 42));
    assert_eq!(e.session_id, "s1");
    assert_eq!(e.role, Role::System);
    assert_eq!(e.timestamp_ms, 42);
    assert!(e.embedding.is_none());
    assert!(e.ttl_secs.is_none());
    assert!(e.metadata.tags.is_empty());
}

#[test]
fn episode_new_stamps_the_clock() {
    let e = Episode::new("s", Role::User, "now");
    assert!(e.timestamp_ms > 1_600_000_000_000);
    assert_eq!(e.id, compute_memory_id("now", e.timestamp_ms));
}

#[test]
fn preview_keeps_first_256_chars() {
    let long: String = "é".repeat(300);
    let e = Episode::new_at("s", Role::User, &long, 0);
    assert_eq!(e.preview().chars().count(), 256);
    assert!(long.starts_with(e.preview()));
    let short = Episode::new_at("s", Role::User, "short", 0);
    assert_eq!(short.preview(), "short");
}

#[test]
fn ttl_expiry_adds_seconds_as_millis() {
    let mut e = Episode::new_at("s", Role::User, "x", 1_000);
    assert_eq!(e.ttl_expires_ms(), None);
    e.ttl_secs = Some(60);
    assert_eq!(e.ttl_expires_ms(), Some(61_000));
}

#[test]
fn error_constructors_and_messages() {
    assert_eq!(MembridError::storage("disk full").message(), "storage error: disk full");
    assert_eq!(MembridError::embedding("no model").message(), "embedding error: no model");
    assert_eq!(MembridError::other("plain").message(), "plain");
    let e = MembridError::TokenBudgetExceeded { used: 5000, budget: 4096 };
    assert_eq!(e.message(), "token budget exceeded: used 5000, budget 4096");
}

#[test]
fn decimal_text() {
    assert_eq!(usize_to_decimal(0), "0");
    assert_eq!(usize_to_decimal(7), "7");
    assert_eq!(usize_to_decimal(1024), "1024");
}

#[test]
fn entity_kinds_compare_by_kind_and_custom_text() {
    assert!(EntityKind::Person == EntityKind::Person);
    assert!(EntityKind::Person != EntityKind::Organization);
    assert!(EntityKind::Custom("a".to_string()) == EntityKind::Custom("a".to_string()));
    assert!(EntityKind::Custom("a".to_string()) != EntityKind::Custom("b".to_string()));
    assert!(EntityKind::Custom("person".to_string()) != EntityKind::Person);
}
