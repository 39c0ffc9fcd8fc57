use ecstasy::collection::CollectionIndex;
use ecstasy::snapshot::from_bytes;
use ecstasy::snapshot::to_bytes;

#[test]
fn snapshot_survives_termination_and_reload() {
    let mut index = CollectionIndex::new();
    index.create_collection("My Mix");
    index.add_to_collection("My Mix", "abc");
    let image = to_bytes(&index);
    // The process ends here; only the written image survives.
    drop(index);
    let reloaded = from_bytes(&image).expect("a written snapshot must load");
    assert_eq!(reloaded.records.len(), 1);
    assert_eq!(reloaded.records[0].name, "My Mix");
    let occurrences = reloaded.records[0]
        .checksums
        .iter()
        .filter(|c| c.as_str() == "abc")
        .count();
    assert_eq!(occurrences, 1);
}

#[test]
fn empty_index_round_trips() {
    let index = CollectionIndex::new();
    let image = to_bytes(&index);
    let reloaded = from_bytes(&image).expect("an empty snapshot must load");
    assert!(reloaded.records.is_empty());
}

#[test]
fn non_ascii_names_round_trip() {
    let mut index = CollectionIndex::new();
    index.create_collection("日本語 ♥ mix");
    index.add_to_collection("日本語 ♥ mix", "d41d8cd98f00b204e9800998ecf8427e");
    index.create_collection("plain");
    let image = to_bytes(&index);
    let reloaded = from_bytes(&image).expect("snapshot must load");
    assert_eq!(reloaded.records.len(), 2);
    assert_eq!(reloaded.records[0].name, "日本語 ♥ mix");
    assert_eq!(reloaded.records[0].checksums, vec![
        "d41d8cd98f00b204e9800998ecf8427e".to_string()
    ]);
    assert_eq!(reloaded.records[1].name, "plain");
}

#[test]
fn truncated_snapshots_are_rejected() {
    let mut index = CollectionIndex::new();
    index.create_collection("My Mix");
    index.add_to_collection("My Mix", "abc");
    let image = to_bytes(&index);
    for cut in [0usize, 1, 7, image.len() - 1] {
        let partial: Vec<u8> = image[..cut].to_vec();
        assert!(from_bytes(&partial).is_none(), "a partial write must not load");
    }
}

#[test]
fn trailing_bytes_are_rejected() {
    let index = CollectionIndex::new();
    let mut image = to_bytes(&index);
    image.push(0);
    assert!(from_bytes(&image).is_none());
}

#[test]
fn empty_file_is_rejected() {
    assert!(from_bytes(&Vec::new()).is_none());
}

#[test]
fn damaged_character_is_rejected() {
    let mut index = CollectionIndex::new();
    index.create_collection("A");
    let mut image = to_bytes(&index);
    // The record name's one character sits after the two length prefixes;
    // overwrite it with a surrogate value, which is no character.
    image[16] = 0x00;
    image[17] = 0xd8;
    image[18] = 0x00;
    image[19] = 0x00;
    assert!(from_bytes(&image).is_none());
}

#[test]
fn duplicate_names_are_rejected() {
    let twin = ecstasy::collection::CollectionRecord {
        name: "A".to_string(),
        checksums: vec!["abc".to_string()],
    };
    let other = ecstasy::collection::CollectionRecord {
        name: "A".to_string(),
        checksums: Vec::new(),
    };
    let index = CollectionIndex { records: vec![twin, other] };
    let image = to_bytes(&index);
    assert!(from_bytes(&image).is_none());
}
