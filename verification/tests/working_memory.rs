use membrid::memory::working::{OverflowStrategy, WorkingMemory};
use membrid::types::{Episode, MemoryMetadata, MemoryTier, Role};

fn ep(content: &str) -> Episode {
    Episode::new("test-session", Role::User, content)
}

#[test]
fn push_and_scan_in_order() {
    let mut wm = WorkingMemory::new(4);
    wm.push(ep("first"));
    wm.push(ep("second"));
    wm.push(ep("third"));

    let items = wm.scan();
    assert_eq!(items.len(), 3);
    assert_eq!(items[0].content, "first");
    assert_eq!(items[1].content, "second");
    assert_eq!(items[2].content, "third");
}

#[test]
fn overflow_drops_oldest() {
    let mut wm = WorkingMemory::new(3);
    wm.push(ep("a"));
    wm.push(ep("b"));
    wm.push(ep("c"));
    wm.push(ep("d")); // overflows; "a" is dropped

    assert_eq!(wm.len(), 3);
    let items = wm.scan();
    assert_eq!(items[0].content, "b");
    assert_eq!(items[2].content, "d");
}

#[test]
fn overflow_summarize_falls_back_to_drop() {
    let mut wm = WorkingMemory::new(2).with_overflow(OverflowStrategy::SummarizeOldest);
    wm.push(ep("x"));
    wm.push(ep("y"));
    wm.push(ep("z")); // "x" is dropped (SummarizeOldest falls back to DropOldest)

    assert_eq!(wm.len(), 2);
    let items = wm.scan();
    assert_eq!(items[0].content, "y");
    assert_eq!(items[1].content, "z");
}

#[test]
fn scan_score_and_tier() {
    let mut wm = WorkingMemory::new(4);
    wm.push(ep("hello"));

    let items = wm.scan();
    assert_eq!(f32::from_bits(items[0].score), 1.0);
    assert_eq!(items[0].tier, MemoryTier::Working);
}

#[test]
fn clear_empties_buffer() {
    let mut wm = WorkingMemory::new(4);
    wm.push(ep("hello"));
    wm.clear();

    assert!(wm.is_empty());
    assert_eq!(wm.scan().len(), 0);
}

#[test]
fn scan_empty_returns_empty_vec() {
    let wm = WorkingMemory::new(4);
    assert_eq!(wm.scan().len(), 0);
}

#[test]
fn window_keeps_latest_turns_in_order() {
    let mut wm = WorkingMemory::new(3);
    for i in 1..=5u32 {
        let content = format!("turn {i}");
        wm.push(Episode::new("s", Role::User, &content));
    }
    let contents: Vec<String> = wm.scan().into_iter().map(|m| m.content).collect();
    assert_eq!(contents, ["turn 3", "turn 4", "turn 5"]);
    assert_eq!(wm.max_turns(), 3);
}

#[test]
fn scan_metadata_names_role_and_session() {
    let mut wm = WorkingMemory::new(2);
    let e = Episode::new_at("sess-7", Role::Assistant, "reply", 1234);
    let id = e.id;
    wm.push(e);
    let items = wm.scan();
    assert_eq!(items[0].id, id);
    assert_eq!(items[0].timestamp_ms, 1234);
    match &items[0].metadata {
        MemoryMetadata::Object(members) => {
            assert_eq!(members.len(), 2);
            assert_eq!(members[0], ("role".to_string(), "assistant".to_string()));
            assert_eq!(members[1], ("session_id".to_string(), "sess-7".to_string()));
        }
        MemoryMetadata::Null => panic!("working memory entries carry metadata"),
    }
}

#[test]
fn default_overflow_is_drop_oldest() {
    assert_eq!(OverflowStrategy::default(), OverflowStrategy::DropOldest);
}

#[test]
fn pushes_clears_and_strategy_changes_keep_latest_since_clear() {
    let mut wm = WorkingMemory::new(2);
    wm.push(ep("a"));
    wm.clear();
    wm.push(ep("b"));
    let mut wm = wm.with_overflow(OverflowStrategy::SummarizeOldest);
    wm.push(ep("c"));
    wm.push(ep("d"));
    assert_eq!(wm.len(), 2);
    assert_eq!(wm.max_turns(), 2);
    let items = wm.scan();
    assert_eq!(items[0].content, "c");
    assert_eq!(items[1].content, "d");
}
