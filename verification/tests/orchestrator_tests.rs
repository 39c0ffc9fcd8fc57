use ecstasy::collection::CollectionIndex;
use ecstasy::collector::CollectionInfoBeatmap;
use ecstasy::collector::CollectionInfoBeatmapsets;
use ecstasy::orchestrator::build_file_name;
use ecstasy::orchestrator::build_file_path;
use ecstasy::orchestrator::find_beatmap;
use ecstasy::orchestrator::process_group_failure;
use ecstasy::orchestrator::process_group_success;
use ecstasy::orchestrator::run_groups;
use ecstasy::orchestrator::GroupOutcome;
use ecstasy::progress::ProgressTracker;

fn group(id: i32, checksums: &[&str]) -> CollectionInfoBeatmapsets {
    CollectionInfoBeatmapsets {
        id,
        beatmaps: checksums
            .iter()
            .map(|c| CollectionInfoBeatmap { checksum: c.to_string() })
            .collect(),
    }
}

#[test]
fn already_downloaded_group_is_merged_without_fetching() {
    let names = vec![
        "123 Artist - Old Song.osz".to_string(),
        "42 Artist - Known Song.osz".to_string(),
    ];
    assert_eq!(find_beatmap(&names, 42), Some(true));
    assert_eq!(find_beatmap(&names, 7), None);

    // The mirror stub records every fetch; a locally present group skips it.
    let mut fetch_calls: u32 = 0;
    let mut index = CollectionIndex::new();
    let mut progress = ProgressTracker::new(2);
    let g = group(42, &["aa", "bb"]);
    if find_beatmap(&names, g.id).is_some() {
        process_group_success(&mut index, &mut progress, "Mix", &g);
    } else {
        fetch_calls += 1;
    }
    assert_eq!(fetch_calls, 0);
    assert_eq!(index.records[0].name, "Mix");
    assert_eq!(index.records[0].checksums, vec!["aa".to_string(), "bb".to_string()]);
    assert_eq!(progress.completed, 2);
}

#[test]
fn one_failing_group_leaves_the_others_whole() {
    let groups = vec![group(1, &["a"]), group(2, &["b"]), group(3, &["c"])];
    let outcomes = vec![GroupOutcome::Satisfied, GroupOutcome::Failed, GroupOutcome::Satisfied];
    let mut index = CollectionIndex::new();
    let mut progress = ProgressTracker::new(3);
    run_groups(&mut index, &mut progress, "Mix", &groups, &outcomes);
    assert_eq!(progress.completed, 2);
    assert_eq!(progress.target, 2);
    assert!(progress.is_complete());
    assert_eq!(index.records.len(), 1);
    assert_eq!(index.records[0].checksums, vec!["a".to_string(), "c".to_string()]);
}

#[test]
fn failed_group_shrinks_target_by_its_item_count() {
    let mut index = CollectionIndex::new();
    let mut progress = ProgressTracker::new(5);
    let g = group(9, &["x", "y", "z"]);
    process_group_failure(&mut index, &mut progress, "Mix", &g);
    assert_eq!(progress.completed, 0);
    assert_eq!(progress.target, 2);
    assert_eq!(index.records.len(), 1);
    assert!(index.records[0].checksums.is_empty());
}

#[test]
fn duplicate_checksums_across_groups_stay_single() {
    let groups = vec![group(1, &["a", "b"]), group(2, &["b", "c"])];
    let outcomes = vec![GroupOutcome::Satisfied, GroupOutcome::Satisfied];
    let mut index = CollectionIndex::new();
    let mut progress = ProgressTracker::new(4);
    run_groups(&mut index, &mut progress, "Mix", &groups, &outcomes);
    assert_eq!(
        index.records[0].checksums,
        vec!["a".to_string(), "b".to_string(), "c".to_string()]
    );
    assert_eq!(progress.completed, 4);
}

#[test]
fn builds_archive_names() {
    assert_eq!(build_file_name(42, "Artist", "Song"), "42 Artist - Song");
}

#[test]
fn sanitises_archive_paths() {
    assert_eq!(build_file_path("songs", "42 AC/DC - T.N.T"), "songs/42 AC_DC - T.N.T.osz");
    assert_eq!(build_file_path("songs", "7 a - b"), "songs/7 a - b.osz");
}
