use nc_backup_lib::chain::{ChainError, SnapshotChain, SyncStep, plan_syncs, anchor_after};
use nc_backup_lib::date::{label, Timestamp};
use nc_backup_lib::snapshot::{SnapperCleanupAlgorithm, SnapperConfig, Snapshot};

fn cfg() -> SnapperConfig {
    SnapperConfig { subvolume: "/srv/data".to_string(), config_id: "data".to_string() }
}

fn at(y: i32, mo: u32, d: u32, h: u32) -> Timestamp {
    Timestamp::new(y, mo, d, h, 0, 0).unwrap()
}

fn snap(id: u64, tags: &[(&str, &str)], when: Timestamp) -> Snapshot {
    let data = tags.iter().map(|(k, v)| (k.to_string(), v.to_string())).collect();
    Snapshot::new(cfg(), id, data, Some(SnapperCleanupAlgorithm::Timeline), when)
}

#[test]
fn cleanup_algorithm_names() {
    assert_eq!(SnapperCleanupAlgorithm::parse_name("number").unwrap(), SnapperCleanupAlgorithm::Number);
    assert_eq!("timeline".parse::<SnapperCleanupAlgorithm>().unwrap(), SnapperCleanupAlgorithm::Timeline);
    let err = SnapperCleanupAlgorithm::parse_name("hourly").unwrap_err();
    assert_eq!(err.0, "hourly");
    assert_eq!(SnapperCleanupAlgorithm::Number.name(), "number");
}

#[test]
fn tags_read_and_write() {
    let mut s = snap(5, &[("synced", "false"), ("important", "yes")], at(2024, 1, 1, 0));
    assert!(s.is_unsynced());
    assert!(!s.is_synced());
    assert!(!s.is_anchored());
    s.synced();
    assert!(s.is_synced());
    assert_eq!(s.user_data_text(), "synced=true,important=yes");
    s.anchor();
    assert!(s.is_anchored());
    assert_eq!(s.user_data_text(), "synced=true,important=yes,anchor=true");
    s.release();
    assert!(!s.is_anchored());
    assert_eq!(s.user_data_text(), "synced=true,important=yes,anchor=false");
}

#[test]
fn repeated_tag_keeps_last_value() {
    let s = snap(5, &[("synced", "false"), ("synced", "true")], at(2024, 1, 1, 0));
    assert!(s.is_synced());
    assert_eq!(s.user_data().len(), 1);
}

#[test]
fn snapshot_path_and_update_request() {
    let mut s = snap(42, &[("synced", "true")], at(2024, 1, 1, 0));
    assert_eq!(s.snapshot_path(), "/srv/data/.snapshots/42/snapshot");
    let req = s.update_request();
    assert_eq!(req.config_id, "data");
    assert_eq!(req.id, 42);
    assert_eq!(req.user_data, "synced=true");
    assert_eq!(req.cleanup, "timeline");
    s.set_cleanup(None);
    assert_eq!(s.update_request().cleanup, "");
}

#[test]
fn second_promotion_moves_the_anchor() {
    let a = snap(1, &[("synced", "true")], at(2024, 1, 1, 0));
    let b = snap(2, &[("synced", "true")], at(2024, 1, 2, 0));
    let mut chain = SnapshotChain::new(vec![a, b], Some(SnapperCleanupAlgorithm::Number));
    chain.promote(0);
    assert_eq!(chain.current_anchor().unwrap(), Some(0));
    assert_eq!(chain.snapshots[0].cleanup, None);
    let changed = chain.promote(1);
    assert_eq!(chain.current_anchor().unwrap(), Some(1));
    assert!(!chain.snapshots[0].is_anchored());
    assert_eq!(chain.snapshots[0].cleanup, Some(SnapperCleanupAlgorithm::Number));
    assert_eq!(chain.snapshots[1].cleanup, None);
    assert_eq!(changed, vec![0, 1]);
}

#[test]
fn anchor_lookup() {
    let none = SnapshotChain::new(vec![snap(1, &[], at(2024, 1, 1, 0))], None);
    assert_eq!(none.current_anchor().unwrap(), None);
    let two = SnapshotChain::new(
        vec![snap(1, &[("anchor", "true")], at(2024, 1, 1, 0)), snap(2, &[("anchor", "true")], at(2024, 1, 2, 0))],
        None,
    );
    assert!(matches!(two.current_anchor(), Err(ChainError::MultipleAnchors)));
    assert_eq!(two.position(2), Some(1));
    assert_eq!(two.position(9), None);
}

#[test]
fn unsynced_snapshots_oldest_first() {
    let chain = SnapshotChain::new(
        vec![
            snap(7, &[("synced", "false")], at(2024, 3, 1, 12)),
            snap(3, &[("synced", "true")], at(2024, 1, 1, 0)),
            snap(5, &[("synced", "false")], at(2024, 2, 1, 0)),
            snap(8, &[("synced", "false")], at(2024, 3, 1, 12)),
            snap(9, &[], at(2023, 1, 1, 0)),
        ],
        None,
    );
    assert_eq!(chain.unsynced_snapshots(), vec![2, 0, 3]);
}

#[test]
fn demote_and_mark_synced() {
    let mut chain = SnapshotChain::new(
        vec![snap(1, &[("anchor", "true"), ("synced", "false")], at(2024, 1, 1, 0))],
        Some(SnapperCleanupAlgorithm::Number),
    );
    chain.mark_synced(0);
    assert!(chain.snapshots[0].is_synced());
    chain.demote(0);
    assert!(!chain.snapshots[0].is_anchored());
    assert_eq!(chain.snapshots[0].cleanup, Some(SnapperCleanupAlgorithm::Number));
}

#[test]
fn sync_plans() {
    let order = vec![4, 2, 6];
    assert_eq!(
        plan_syncs(Some(1), &order, true),
        vec![
            SyncStep { snapshot: 4, parent: Some(1) },
            SyncStep { snapshot: 2, parent: Some(4) },
            SyncStep { snapshot: 6, parent: Some(2) },
        ]
    );
    assert_eq!(
        plan_syncs(Some(1), &order, false),
        vec![
            SyncStep { snapshot: 4, parent: None },
            SyncStep { snapshot: 2, parent: None },
            SyncStep { snapshot: 6, parent: None },
        ]
    );
    assert_eq!(plan_syncs(None, &order, true)[0].parent, None);
    assert_eq!(anchor_after(Some(1), &order), Some(6));
    assert_eq!(anchor_after(Some(1), &vec![]), Some(1));
}

#[test]
fn timestamp_labels() {
    let t = Timestamp::new(2024, 1, 3, 4, 5, 6).unwrap();
    assert_eq!(label(&t), "2024-01-03T04-05-06");
    let far = Timestamp::new(12024, 11, 30, 23, 59, 59).unwrap();
    assert_eq!(label(&far), "+12024-11-30T23-59-59");
    let early = Timestamp::new(-44, 3, 15, 12, 0, 0).unwrap();
    assert_eq!(label(&early), "-0044-03-15T12-00-00");
    assert!(Timestamp::new(2024, 1, 1, 24, 0, 0).is_none());
    assert!(Timestamp::new(2024, 1, 1, 10, 0, 0).unwrap().is_before(&Timestamp::new(2024, 1, 1, 10, 0, 1).unwrap()));
}

#[test]
fn listing_searches() {
    let listing = vec![
        snap(1, &[("synced", "true"), ("anchor", "true")], at(2024, 1, 1, 0)),
        snap(4, &[("synced", "false")], at(2024, 1, 4, 0)),
        snap(3, &[("synced", "false")], at(2024, 1, 3, 0)),
    ];
    assert_eq!(SnapperConfig::snapshot(&listing, 4), Some(1));
    assert_eq!(SnapperConfig::snapshot(&listing, 2), None);
    assert_eq!(SnapperConfig::anchored_snapshot(&listing).unwrap(), Some(0));
    assert_eq!(SnapperConfig::unsynced_snapshots(&listing), vec![2, 1]);
}
