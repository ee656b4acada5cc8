use qdctl::backup::{backup_plan, BackupJob, Place, Scroll, ScrollRequest};
use qdctl::batches::Batch;
use qdctl::dict::Dict;
use qdctl::directories::{backup_dir, holds_backup, sort_by_name, BackupDir};
use qdctl::error::StoreError;
use qdctl::points::{PointId, PointIdOptions, PointStruct};
use qdctl::restore::{needs_creation, restore_plan, RestorePlan};
use qdctl::text_order::precedes;

fn dir(dir: &str, name: &str) -> BackupDir {
    BackupDir { dir: dir.to_string(), name: name.to_string() }
}

fn point(n: u64) -> PointStruct {
    PointStruct { id: PointIdOptions::Num(n), payload: Dict::new(), vectors: None }
}

fn id(n: u64) -> PointId {
    PointId { point_id_options: Some(PointIdOptions::Num(n)) }
}

fn ids(points: &Vec<PointStruct>) -> Vec<u64> {
    points
        .iter()
        .map(|p| match &p.id {
            PointIdOptions::Num(n) => *n,
            other => panic!("{other:?}"),
        })
        .collect()
}

/// The ids in the batches in which points 0 to `count` come out.
fn batches(batch_size: usize, count: u64) -> Vec<Vec<u64>> {
    let mut given = Vec::new();
    let mut batch = Batch::start(batch_size);
    for n in 0..count {
        if let Some(points) = batch.push(point(n)) {
            given.push(ids(&points));
            batch.written(points.len());
        }
    }
    if let Some(points) = batch.finish() {
        given.push(ids(&points));
        batch.written(points.len());
    }
    assert_eq!(batch.total, count);
    assert!(batch.points.is_empty());
    given
}

#[test]
fn one_collection_is_backed_up_into_the_output_directory() {
    assert_eq!(
        backup_plan(Some("a"), &vec!["b".to_string()]),
        vec![BackupJob { collection: "a".to_string(), place: Place::Output }]
    );
}

#[test]
fn all_collections_are_backed_up_into_directories_of_their_names() {
    let listed = vec!["b".to_string(), "a".to_string()];
    assert_eq!(
        backup_plan(None, &listed),
        vec![
            BackupJob {
                collection: "b".to_string(),
                place: Place::Subdirectory("b".to_string()),
            },
            BackupJob {
                collection: "a".to_string(),
                place: Place::Subdirectory("a".to_string()),
            },
        ]
    );
    assert_eq!(backup_plan(None, &vec![]), vec![]);
}

#[test]
fn a_directory_with_both_files_holds_a_backup() {
    assert!(holds_backup(true, true, true));
    assert!(!holds_backup(false, true, true));
    assert!(!holds_backup(true, false, true));
    assert!(!holds_backup(true, true, false));
}

#[test]
fn a_backup_has_the_name_in_its_notes() {
    assert_eq!(
        backup_dir("x/y".to_string(), "{\"collection_name\": \"c\"}").unwrap(),
        dir("x/y", "c")
    );
    assert!(matches!(backup_dir("x".to_string(), "{}"), Err(StoreError::NoCollectionName)));
    assert!(matches!(backup_dir("x".to_string(), ""), Err(StoreError::Json(_))));
}

#[test]
fn backups_are_restored_in_the_order_of_their_names() {
    let found = vec![
        dir("1", "b"),
        dir("2", "a"),
        dir("3", "B"),
        dir("4", "ab"),
        dir("5", "a"),
        dir("6", "\u{e9}"),
        dir("7", ""),
        dir("8", "b"),
    ];
    let sorted: Vec<String> = sort_by_name(found).into_iter().map(|d| d.dir).collect();
    assert_eq!(sorted, vec!["7", "3", "2", "5", "4", "1", "8", "6"]);
}

#[test]
fn texts_are_ordered_as_strings_are() {
    let texts = ["", "a", "ab", "b", "B", "\u{e9}", "\u{ffff}", "\u{10000}", "a\u{0}"];
    for x in texts {
        for y in texts {
            assert_eq!(precedes(x, y), x < y);
        }
    }
}

#[test]
fn what_is_restored_depends_on_what_is_asked_and_found() {
    let found = || vec![dir("d", "c")];
    assert_eq!(restore_plan(Some("x"), found()), RestorePlan::Input("x".to_string()));
    assert_eq!(restore_plan(Some("x"), vec![]), RestorePlan::Input("x".to_string()));
    assert_eq!(restore_plan(None, vec![]), RestorePlan::InputByNotes);
    assert_eq!(restore_plan(None, found()), RestorePlan::Each(found()));
}

#[test]
fn only_a_missing_collection_is_created() {
    assert!(needs_creation(true, false));
    assert!(!needs_creation(true, true));
    assert!(!needs_creation(false, false));
    assert!(!needs_creation(false, true));
}

#[test]
fn a_walk_asks_for_one_page_after_another() {
    let request = |offset: Option<PointId>| ScrollRequest {
        collection: "c".to_string(),
        limit: 10,
        with_payload: true,
        with_vectors: true,
        offset,
    };
    let mut scroll = Scroll::start("c", 10);
    assert_eq!(scroll.request(), request(None));
    assert!(!scroll.done);
    scroll.receive(10, Some(id(11)));
    assert_eq!(scroll.request(), request(Some(id(11))));
    assert!(!scroll.done);
    scroll.receive(4, None);
    assert!(scroll.done);
    assert_eq!(scroll.total, 14);
}

#[test]
fn a_walk_ends_at_a_page_without_points() {
    let mut scroll = Scroll::start("c", 10);
    scroll.receive(0, Some(id(1)));
    assert!(scroll.done);
    assert_eq!(scroll.total, 0);
}

#[test]
fn a_walk_goes_on_from_ids_that_hold_nothing_or_a_uuid() {
    let mut scroll = Scroll::start("c", 1);
    let uuid = || PointId { point_id_options: Some(PointIdOptions::Uuid("u".to_string())) };
    scroll.receive(1, Some(uuid()));
    assert_eq!(scroll.request().offset, Some(uuid()));
    scroll.receive(1, Some(PointId { point_id_options: None }));
    assert!(!scroll.done);
    assert_eq!(scroll.request().offset, Some(PointId { point_id_options: None }));
}

#[test]
fn points_come_out_in_full_batches() {
    assert_eq!(batches(2, 5), vec![vec![0, 1], vec![2, 3], vec![4]]);
    assert_eq!(batches(2, 4), vec![vec![0, 1], vec![2, 3]]);
    assert_eq!(batches(1, 2), vec![vec![0], vec![1]]);
    assert_eq!(batches(10, 3), vec![vec![0, 1, 2]]);
    assert_eq!(batches(3, 0), Vec::<Vec<u64>>::new());
}

#[test]
fn a_batch_has_at_least_one_point() {
    assert_eq!(batches(0, 2), vec![vec![0], vec![1]]);
}
