use nc_backup_lib::chain::SnapshotChain;
use nc_backup_lib::date::Timestamp;
use nc_backup_lib::snapshot::{SnapperConfig, Snapshot};
use nc_backup_lib::transfer::{next_stage, prepare_transfer, SyncSnapshotError, TransferEvent, TransferStage};

fn snap(id: u64, synced: &str) -> Snapshot {
    let cfg = SnapperConfig { subvolume: "/srv/data".to_string(), config_id: "data".to_string() };
    let when = Timestamp::new(2024, 1, id as u32, 0, 0, 0).unwrap();
    Snapshot::new(cfg, id, vec![("synced".to_string(), synced.to_string())], None, when)
}

fn strs(v: &[&str]) -> Vec<String> {
    v.iter().map(|s| s.to_string()).collect()
}

#[test]
fn unsynced_parent_is_refused() {
    let s = snap(2, "false");
    let parent = snap(1, "false");
    let r = prepare_transfer(&s, Some(&parent), true, "/mnt/dest/2/", true, false, false);
    assert!(matches!(r, Err(SyncSnapshotError::AnchorNotSynced(1))));
    // also when the destination is missing
    let r = prepare_transfer(&s, Some(&parent), true, "/mnt/dest/2/", false, false, false);
    assert!(matches!(r, Err(SyncSnapshotError::AnchorNotSynced(1))));
    // and when the parent's files are missing
    let synced_parent = snap(1, "true");
    let r = prepare_transfer(&s, Some(&synced_parent), false, "/mnt/dest/2/", true, false, false);
    assert!(matches!(r, Err(SyncSnapshotError::AnchorNotSynced(1))));
}

#[test]
fn missing_destination_is_refused() {
    let s = snap(2, "false");
    match prepare_transfer(&s, None, false, "/mnt/dest/2/", false, false, false) {
        Err(SyncSnapshotError::DestinationNotFound(d)) => assert_eq!(d, "/mnt/dest/2/"),
        other => panic!("unexpected {other:?}"),
    }
}

#[test]
fn full_then_incremental_transfer() {
    let mut chain = SnapshotChain::new(vec![snap(1, "false"), snap(2, "false")], None);
    let full = prepare_transfer(&chain.snapshots[0], None, false, "/mnt/dest/1/", true, false, false).unwrap();
    assert_eq!(full.producer, strs(&["sudo", "btrfs", "send", "/srv/data/.snapshots/1/snapshot"]));
    assert_eq!(full.consumer, strs(&["sudo", "btrfs", "receive", "/mnt/dest/1/"]));
    chain.mark_synced(0);
    assert!(chain.snapshots[0].is_synced());
    let incremental =
        prepare_transfer(&chain.snapshots[1], Some(&chain.snapshots[0]), true, "/mnt/dest/2/", true, true, true)
            .unwrap();
    assert_eq!(
        incremental.producer,
        strs(&["sudo", "btrfs", "-v", "send", "-p", "/srv/data/.snapshots/1/snapshot", "/srv/data/.snapshots/2/snapshot"])
    );
    assert_eq!(incremental.consumer, strs(&["sudo", "btrfs", "-v", "receive", "/mnt/dest/2/"]));
}

#[test]
fn stages_in_order() {
    let s = next_stage(TransferStage::Copying, TransferEvent::Copied(Ok(())));
    assert!(matches!(s, TransferStage::AwaitingProducer));
    let s = next_stage(s, TransferEvent::ProducerExited(Ok(())));
    assert!(matches!(s, TransferStage::AwaitingConsumer));
    let s = next_stage(s, TransferEvent::ConsumerExited(Ok(())));
    assert!(matches!(s, TransferStage::Finished(Ok(()))));
}

#[test]
fn stage_failures_are_attributed() {
    match next_stage(TransferStage::Copying, TransferEvent::Copied(Err("broken pipe".to_string()))) {
        TransferStage::Finished(Err(SyncSnapshotError::PipeFailed(m))) => assert_eq!(m, "broken pipe"),
        other => panic!("unexpected {other:?}"),
    }
    match next_stage(TransferStage::AwaitingProducer, TransferEvent::ProducerExited(Err("exit 1".to_string()))) {
        TransferStage::Finished(Err(SyncSnapshotError::BtrfSendFailed(m))) => assert_eq!(m, "exit 1"),
        other => panic!("unexpected {other:?}"),
    }
    match next_stage(TransferStage::AwaitingConsumer, TransferEvent::ConsumerExited(Err("exit 2".to_string()))) {
        TransferStage::Finished(Err(SyncSnapshotError::BtrfRecvFailed(m))) => assert_eq!(m, "exit 2"),
        other => panic!("unexpected {other:?}"),
    }
}

#[test]
fn snapshot_sync_methods() {
    let s = snap(3, "false");
    let full = s.sync("/mnt/dest/3/", true, false, false).unwrap();
    assert_eq!(full.producer, strs(&["sudo", "btrfs", "send", "/srv/data/.snapshots/3/snapshot"]));
    assert!(matches!(s.sync("/mnt/dest/3/", false, false, false), Err(SyncSnapshotError::DestinationNotFound(_))));
    let anchor = snap(2, "true");
    let delta = s.sync_incrementally(&anchor, true, "/mnt/dest/3/", true, false, true).unwrap();
    assert_eq!(delta.producer[3], "-p");
    assert_eq!(delta.consumer, strs(&["sudo", "btrfs", "-v", "receive", "/mnt/dest/3/"]));
    let unsynced_anchor = snap(2, "false");
    assert!(matches!(
        s.sync_incrementally(&unsynced_anchor, true, "/mnt/dest/3/", true, false, false),
        Err(SyncSnapshotError::AnchorNotSynced(2))
    ));
}

#[test]
fn snapshots_compare_by_number() {
    assert!(snap(3, "false") == snap(3, "true"));
    assert!(snap(3, "false") != snap(4, "false"));
}
