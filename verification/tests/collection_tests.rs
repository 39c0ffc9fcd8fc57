use ecstasy::collection::CollectionIndex;

#[test]
fn merge_is_idempotent() {
    let mut index = CollectionIndex::new();
    assert!(index.create_collection("My Mix"));
    assert!(index.add_to_collection("My Mix", "abc"));
    assert!(!index.add_to_collection("My Mix", "abc"));
    assert_eq!(index.records.len(), 1);
    assert_eq!(index.records[0].name, "My Mix");
    assert_eq!(index.records[0].checksums, vec!["abc".to_string()]);
}

#[test]
fn repeated_creation_leaves_one_record() {
    let mut index = CollectionIndex::new();
    for _ in 0..10 {
        index.create_collection("X");
    }
    let named_x = index.records.iter().filter(|r| r.name == "X").count();
    assert_eq!(named_x, 1);
    assert_eq!(index.records.len(), 1);
}

#[test]
fn creation_is_idempotent_and_keeps_contents() {
    let mut index = CollectionIndex::new();
    index.create_collection("A");
    index.add_to_collection("A", "c1");
    assert!(!index.create_collection("A"));
    assert_eq!(index.records[0].checksums, vec!["c1".to_string()]);
}

#[test]
fn merge_preserves_insertion_order() {
    let mut index = CollectionIndex::new();
    index.create_collection("A");
    index.add_to_collection("A", "c2");
    index.add_to_collection("A", "c1");
    index.add_to_collection("A", "c3");
    index.add_to_collection("A", "c1");
    assert_eq!(
        index.records[0].checksums,
        vec!["c2".to_string(), "c1".to_string(), "c3".to_string()]
    );
}

#[test]
fn checksum_lookup_sees_only_its_collection() {
    let mut index = CollectionIndex::new();
    index.create_collection("A");
    index.create_collection("B");
    index.add_to_collection("A", "c1");
    assert!(index.is_checksum_in_collection("A", "c1"));
    assert!(!index.is_checksum_in_collection("B", "c1"));
    assert!(!index.is_checksum_in_collection("A", "c2"));
}
