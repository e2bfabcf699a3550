use omi_store::scoring::{calculate_scoring, MemoryCategory};

#[test]
fn scoring_string_layout() {
    assert_eq!(calculate_scoring(&MemoryCategory::Interesting, 1700000000, false), "00_998_1700000000");
    assert_eq!(calculate_scoring(&MemoryCategory::System, 1700000000, false), "00_999_1700000000");
    assert_eq!(calculate_scoring(&MemoryCategory::Manual, 42, true), "01_998_0000000042");
    assert_eq!(calculate_scoring(&MemoryCategory::System, -5, false), "00_999_-000000005");
}

#[test]
fn manual_memories_sort_first() {
    let manual_old = calculate_scoring(&MemoryCategory::Interesting, 1000, true);
    let auto_new = calculate_scoring(&MemoryCategory::System, 2000000000, false);
    assert!(manual_old > auto_new);
}

#[test]
fn higher_category_group_sorts_first() {
    let a = calculate_scoring(&MemoryCategory::System, 1700000000, false);
    let b = calculate_scoring(&MemoryCategory::Interesting, 1700000000, false);
    assert!(a > b);
}

#[test]
fn ties_break_by_recency() {
    let newer = calculate_scoring(&MemoryCategory::Interesting, 1700000001, false);
    let older = calculate_scoring(&MemoryCategory::Interesting, 1700000000, false);
    assert!(newer > older);
}
