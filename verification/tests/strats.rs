use moonproto::strats::{
    add_folder_path, copy_snapshot, revision_dominates, revision_strictly_dominates,
    same_revision, StratCheckedItem, StrategyBatch, StrategySnapshot, StrategySnapshotApplyOutcome, StratsState,
};

fn snap(id: u64, ver: i32, date: u64, path: &str) -> StrategySnapshot {
    StrategySnapshot {
        strategy_id: id,
        strategy_ver: ver,
        last_date: date,
        checked: false,
        path: path.into(),
        fields: vec![("SellPrice".into(), vec![1, 2, 3])],
    }
}

fn sorted_paths(s: &StratsState) -> Vec<String> {
    let mut v = s.folder_paths();
    v.sort();
    v
}

#[test]
fn add_folder_path_adds_every_parent_once() {
    let mut folders: Vec<(String, String)> = Vec::new();
    assert!(add_folder_path(&mut folders, "Main/Sub/Leaf"));
    let paths: Vec<&str> = folders.iter().map(|(_, p)| p.as_str()).collect();
    assert_eq!(paths, vec!["Main", "Main/Sub", "Main/Sub/Leaf"]);
    let keys: Vec<&str> = folders.iter().map(|(k, _)| k.as_str()).collect();
    assert_eq!(keys, vec!["main", "main/sub", "main/sub/leaf"]);
    // Same key in another case: nothing changes.
    assert!(!add_folder_path(&mut folders, "MAIN/sub"));
    assert!(!add_folder_path(&mut folders, ""));
    assert!(add_folder_path(&mut folders, "main/Other"));
    assert_eq!(folders.len(), 4);
    assert_eq!(folders[3].1, "main/Other");
}

#[test]
fn upsert_creates_rows_order_and_folders() {
    let mut s = StratsState::new();
    s.upsert(7, 100, "A/B".into());
    s.upsert(3, 50, "".into());
    s.upsert(7, 200, "A".into());
    assert_eq!(s.order(), &[7, 3]);
    assert_eq!(s.len(), 2);
    let row = s.strategy(7).unwrap();
    assert_eq!(row.last_date, 200);
    assert_eq!(row.folder_path, "A");
    assert_eq!(sorted_paths(&s), vec!["A".to_string(), "A/B".to_string()]);
}

#[test]
fn upsert_from_snapshot_refuses_old_or_equal_revisions() {
    let mut s = StratsState::new();
    assert!(s.upsert_from_snapshot(&snap(1, 2, 1000, "F")));
    assert!(!s.upsert_from_snapshot(&snap(1, 2, 1000, "G")));
    assert!(!s.upsert_from_snapshot(&snap(1, 1, 900, "G")));
    assert_eq!(s.strategy(1).unwrap().folder_path, "F");
    assert!(s.upsert_from_snapshot(&snap(1, 2, 1001, "G")));
    assert_eq!(s.strategy(1).unwrap().folder_path, "G");
    assert_eq!(s.snapshot(1).unwrap().last_date, 1001);
    assert!(s.snapshot_is_old_or_equal(&snap(1, 2, 1001, "")));
    assert!(!s.snapshot_is_old_or_equal(&snap(2, 0, 0, "")));
}

#[test]
fn local_snapshot_replaces_even_equal_revisions() {
    let mut s = StratsState::new();
    s.upsert_local_snapshot(snap(1, 2, 1000, "F"));
    s.upsert_local_snapshot(snap(1, 2, 1000, "G"));
    assert_eq!(s.strategy(1).unwrap().folder_path, "G");
    assert_eq!(s.snapshot(1).unwrap().path, "G");
}

#[test]
fn replace_with_snapshots_rebuilds_rows() {
    let mut s = StratsState::new();
    s.upsert(9, 1, "Old".into());
    s.replace_with_snapshots(&[snap(1, 1, 10, "X"), snap(2, 1, 20, "Y/Z")]);
    assert_eq!(s.order(), &[1, 2]);
    assert!(s.strategy(9).is_none());
    assert_eq!(s.strategy(2).unwrap().last_date, 20);
    assert!(sorted_paths(&s).contains(&"Y/Z".to_string()));
}

#[test]
fn checked_items_create_missing_rows() {
    let mut s = StratsState::new();
    s.upsert(1, 1, "".into());
    s.upsert_checked_items(&[
        StratCheckedItem { strategy_id: 1, checked: true },
        StratCheckedItem { strategy_id: 5, checked: true },
    ]);
    assert!(s.strategy(1).unwrap().checked);
    assert!(s.strategy(5).unwrap().checked);
    assert_eq!(s.order(), &[1, 5]);
}

#[test]
fn remove_strategy_forgets_row_order_and_snapshot() {
    let mut s = StratsState::new();
    assert!(s.upsert_from_snapshot(&snap(1, 1, 10, "X")));
    assert!(s.upsert_from_snapshot(&snap(2, 1, 10, "X")));
    assert!(s.remove_strategy_by_id(1));
    assert!(!s.remove_strategy_by_id(1));
    assert_eq!(s.order(), &[2]);
    assert!(s.snapshot(1).is_none());
    assert!(s.snapshot(2).is_some());
}

#[test]
fn delete_folder_removes_children_unless_a_strategy_is_inside() {
    let mut s = StratsState::new();
    s.create_folders_for_path("A/B/C");
    s.create_folders_for_path("AB");
    s.upsert(1, 1, "A/B".into());
    assert!(!s.delete_folder_by_path("A"));
    assert!(!s.delete_folder_by_path("missing"));
    assert!(!s.delete_folder_by_path(""));
    assert!(s.delete_folder_by_path("a/b/c"));
    assert!(s.remove_strategy_by_id(1));
    assert!(s.delete_folder_by_path("A"));
    assert_eq!(sorted_paths(&s), vec!["AB".to_string()]);
}

#[test]
fn server_folders_create_listed_and_drop_empty_unlisted() {
    let mut s = StratsState::new();
    s.create_folders_for_path("Gone");
    s.create_folders_for_path("Kept");
    s.upsert(1, 1, "Kept".into());
    s.apply_server_folders(&["New/Leaf".to_string()], 10);
    assert_eq!(s.folders_last_modified(), 10);
    assert_eq!(
        sorted_paths(&s),
        vec!["Kept".to_string(), "New".to_string(), "New/Leaf".to_string()]
    );
    // An older or equal tree is ignored.
    s.apply_server_folders(&[], 10);
    assert_eq!(sorted_paths(&s).len(), 3);
}

#[test]
fn staged_local_folders_get_a_newer_date() {
    let mut s = StratsState::new();
    s.apply_server_folders(&["A".to_string()], 100);
    assert!(!s.stage_local_folders(None, 50));
    assert!(s.stage_local_folders(Some(&["A".to_string(), "B".to_string()]), 50));
    assert_eq!(s.local_folders_last_modified(), 101);
    assert!(!s.stage_local_folders(Some(&["a".to_string(), "b".to_string()]), 500));
    assert!(s.stage_local_folders(Some(&["C".to_string()]), 500));
    assert_eq!(s.local_folders_last_modified(), 500);
    // A confirmed tree at least as new drops the staged one.
    s.apply_server_folders(&["A".to_string()], 600);
    assert_eq!(s.local_folders_last_modified(), 600);
}

#[test]
fn no_edits_time_out_without_edits() {
    let mut s = StratsState::new();
    assert!(s.tick_strategy_edit_timeouts(1_000_000).is_empty());
}

#[test]
fn revision_comparisons() {
    let a = snap(1, 2, 100, "");
    let b = snap(1, 2, 100, "x");
    let c = snap(1, 3, 100, "");
    assert!(same_revision(&a, &b));
    assert!(revision_dominates(&c, &a));
    assert!(revision_strictly_dominates(&c, &a));
    assert!(!revision_strictly_dominates(&a, &b));
    let d = copy_snapshot(&a);
    assert_eq!(d.fields, a.fields);
    assert_eq!(d.path, a.path);
}

#[test]
fn server_order_sorts_listed_and_keeps_unlisted_at_the_end() {
    let mut s = StratsState::new();
    for id in [1, 2, 3, 4] {
        s.upsert(id, 1, "".into());
    }
    s.apply_server_order(&[3, 1, 9], 10, false);
    assert_eq!(s.order(), &[3, 1, 2, 4]);
    // Not newer: ignored.
    s.apply_server_order(&[4], 10, false);
    assert_eq!(s.order(), &[3, 1, 2, 4]);
    // A later listing of an id decides its place.
    s.apply_server_order(&[2, 4, 2], 11, false);
    assert_eq!(s.order(), &[4, 2, 3, 1]);
}

#[test]
fn local_order_matches_the_confirmed_order_without_a_local_list() {
    let mut s = StratsState::new();
    s.upsert(1, 1, "".into());
    s.upsert(2, 1, "".into());
    assert!(s.local_order_matches(&[snap(1, 0, 0, ""), snap(2, 0, 0, "")]));
    assert!(!s.local_order_matches(&[snap(2, 0, 0, ""), snap(1, 0, 0, "")]));
    assert!(!s.local_order_matches(&[snap(1, 0, 0, "")]));
}

#[test]
fn local_snapshot_calls_do_nothing_without_a_local_list() {
    let mut s = StratsState::new();
    assert!(!s.set_local_snapshot_checked(1, true));
    s.set_local_snapshot_from_server(snap(1, 1, 1, ""), true);
    assert!(!s.set_local_snapshot_checked(1, true));
    s.remove_local_snapshot(1);
    assert!(s.order().is_empty());
}

#[test]
fn server_snapshot_is_stored_unless_its_row_is_at_least_as_new() {
    let mut s = StratsState::new();
    let mut out = StrategySnapshotApplyOutcome::default();
    assert!(s.apply_server_snapshot(snap(7, 2, 100, "Main/Sub"), false, &mut out));
    assert_eq!(s.strategy(7).unwrap().last_date, 100);
    assert_eq!(s.snapshot(7).unwrap().strategy_ver, 2);
    assert!(sorted_paths(&s).contains(&"Main/Sub".to_string()));
    // The same revision again, and an older one, change nothing.
    assert!(!s.apply_server_snapshot(snap(7, 2, 100, "Main/Sub"), false, &mut out));
    assert!(!s.apply_server_snapshot(snap(7, 1, 50, "Other"), false, &mut out));
    assert_eq!(s.snapshot(7).unwrap().path, "Main/Sub");
    // A newer one replaces it.
    assert!(s.apply_server_snapshot(snap(7, 3, 200, "Main"), true, &mut out));
    assert_eq!(s.snapshot(7).unwrap().strategy_ver, 3);
    // No edit was waiting, so nothing was confirmed, adjusted or superseded.
    assert!(out.confirmed.is_empty() && out.adjusted.is_empty() && out.superseded.is_empty());
}

#[test]
fn snapshot_batch_applies_each_strategy_and_keeps_the_others() {
    let mut s = StratsState::new();
    let mut out = StrategySnapshotApplyOutcome::default();
    s.apply_server_snapshot(snap(1, 1, 10, "Old"), false, &mut out);
    let batch = StrategyBatch {
        strategies: vec![snap(2, 1, 20, "A"), snap(3, 4, 30, "A/B"), snap(1, 1, 5, "Stale")],
        paths: vec!["A/B".to_string()],
    };
    let r = s.apply_snapshot_batch(&[1, 2, 3], &batch, &[false, false, false]);
    assert!(r.confirmed.is_empty() && r.adjusted.is_empty() && r.superseded.is_empty());
    assert_eq!(s.len(), 3);
    assert_eq!(s.snapshot(1).unwrap().path, "Old");
    assert_eq!(s.snapshot(3).unwrap().strategy_ver, 4);
    assert!(sorted_paths(&s).contains(&"A/B".to_string()));
}
