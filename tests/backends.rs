use nc_backup_lib::backends::{BackupOutcome, ConfigBackup, Config, DestinationEntry, MariaDb, Snapper, SnapperBackupError};
use nc_backup_lib::chain::{SnapshotChain, SyncStep};
use nc_backup_lib::cli::{Action, Cli, MaybeSnapperCleanupAlgorithm, SnapperArgs};
use nc_backup_lib::date::Timestamp;
use nc_backup_lib::listing::{ConfigRecord, SnapshotRecord};
use nc_backup_lib::masking::mask_password;
use nc_backup_lib::snapshot::{SnapperCleanupAlgorithm, SnapperConfig, Snapshot};

fn strs(v: &[&str]) -> Vec<String> {
    v.iter().map(|s| s.to_string()).collect()
}

#[test]
fn masks_the_password_line() {
    let lines = strs(&["<?php", "$CONFIG = array (", "  'dbpassword' => 'secret123',", "  'dbuser' => 'nc',", ");"]);
    let (out, found) = mask_password(&lines).unwrap();
    assert!(found);
    assert_eq!(out, strs(&["<?php", "$CONFIG = array (", "  'dbpassword' => 'DBPASSWORD',", "  'dbuser' => 'nc',", ");"]));
}

#[test]
fn copies_config_without_password_unchanged() {
    let lines = strs(&["<?php", "  'dbuser' => 'nc',", ");"]);
    let (out, found) = mask_password(&lines).unwrap();
    assert!(!found);
    assert_eq!(out, lines);
}

#[test]
fn masks_only_the_first_password_line() {
    let lines = strs(&["  'dbpassword' => 'a',", "  'dbpassword' => 'b',"]);
    let (out, found) = mask_password(&lines).unwrap();
    assert!(found);
    assert_eq!(out, strs(&["  'dbpassword' => 'DBPASSWORD',", "  'dbpassword' => 'b',"]));
}

#[test]
fn backup_file_names() {
    let now = Timestamp::new(2024, 1, 3, 4, 5, 6).unwrap();
    let config = Config::new("/backup");
    assert_eq!(config.config_backup_dest, "/backup/config/");
    assert_eq!(config.generate_config_backup_filename(&now), "/backup/config/config-2024-01-03T04-05-06.php.gz");
    let db = MariaDb::new("/backup/");
    assert_eq!(db.db_dump_dest, "/backup/db/");
    assert_eq!(db.generate_db_dump_filename(&now), "/backup/db/database-2024-01-03T04-05-06.sql.gz");
}

#[test]
fn dump_command_line() {
    assert_eq!(
        MariaDb::dump_command("ncuser", "nextcloud"),
        strs(&["mariadb-dump", "--opt", "--single-transaction", "--user=ncuser", "nextcloud"])
    );
}

fn entry(name: &str, holds: bool) -> DestinationEntry {
    DestinationEntry { name: name.to_string(), holds_snapshot: holds }
}

#[test]
fn stale_snapshots_at_destination() {
    let entries = vec![entry("1", true), entry("3", true), entry("4", false), entry("abc", true), entry("+5", true), entry("2", true)];
    let present = vec![1u64, 2];
    assert_eq!(Snapper::deletions_to_sync(Some(&present), &entries), vec![1, 4]);
    assert_eq!(Snapper::deletions_to_sync(None, &entries), Vec::<usize>::new());
    let padded = vec![entry("007", true), entry("02", true)];
    assert_eq!(Snapper::deletions_to_sync(Some(&present), &padded), vec![0]);
    assert_eq!(Snapper::step_destination("/mnt/backup", 7), "/mnt/backup/7/");
    assert_eq!(Snapper::step_destination("/mnt/backup/", 12), "/mnt/backup/12/");
}

fn snap(id: u64, tags: &[(&str, &str)], day: u32) -> Snapshot {
    let cfg = SnapperConfig { subvolume: "/srv/data".to_string(), config_id: "data".to_string() };
    let data = tags.iter().map(|(k, v)| (k.to_string(), v.to_string())).collect();
    Snapshot::new(cfg, id, data, Some(SnapperCleanupAlgorithm::Timeline), Timestamp::new(2024, 1, day, 0, 0, 0).unwrap())
}

#[test]
fn backup_cycle_plan_and_conclusion() {
    let snapper = Snapper { cleanup_algorithm: Some(SnapperCleanupAlgorithm::Timeline), sync_destination: None, incrementally: true };
    let mut chain = SnapshotChain::new(
        vec![
            snap(1, &[("synced", "true"), ("anchor", "true")], 1),
            snap(3, &[("synced", "false")], 3),
            snap(2, &[("synced", "false")], 2),
        ],
        Some(SnapperCleanupAlgorithm::Timeline),
    );
    let (anchor, order, steps) = snapper.plan(&chain).unwrap();
    assert_eq!(anchor, Some(0));
    assert_eq!(order, vec![2, 1]);
    assert_eq!(steps, vec![SyncStep { snapshot: 2, parent: Some(0) }, SyncStep { snapshot: 1, parent: Some(2) }]);
    assert!(matches!(Snapper::conclude(&mut chain, Some(1)), Err(SnapperBackupError::AnchorNotSynced(3))));
    chain.mark_synced(2);
    chain.mark_synced(1);
    let changed = Snapper::conclude(&mut chain, Some(1)).unwrap();
    assert_eq!(changed, vec![0, 1]);
    assert_eq!(chain.current_anchor().unwrap(), Some(1));
    assert!(matches!(Snapper::conclude(&mut chain, None), Err(SnapperBackupError::NoAnchor)));
}

#[test]
fn status_code_bits() {
    let none = BackupOutcome { snapper_failed: false, config_failed: false, mariadb_failed: false };
    assert_eq!(none.status_code(), 0);
    let all = BackupOutcome { snapper_failed: true, config_failed: true, mariadb_failed: true };
    assert_eq!(all.status_code(), 7);
    let db = BackupOutcome { snapper_failed: false, config_failed: false, mariadb_failed: true };
    assert_eq!(db.status_code(), 4);
    let cfg = BackupOutcome { snapper_failed: false, config_failed: true, mariadb_failed: false };
    assert_eq!(cfg.status_code(), 2);
}

#[test]
fn cleanup_option_parsing() {
    assert_eq!(MaybeSnapperCleanupAlgorithm::parse("  ").unwrap(), MaybeSnapperCleanupAlgorithm::Unset);
    assert_eq!(
        "timeline".parse::<MaybeSnapperCleanupAlgorithm>().unwrap(),
        MaybeSnapperCleanupAlgorithm::SnapperCleanupAlgorithm(SnapperCleanupAlgorithm::Timeline)
    );
    assert_eq!(MaybeSnapperCleanupAlgorithm::parse("weekly").unwrap_err().0, "weekly");
    let opt: Option<SnapperCleanupAlgorithm> = MaybeSnapperCleanupAlgorithm::SnapperCleanupAlgorithm(SnapperCleanupAlgorithm::Number).into();
    assert_eq!(opt, Some(SnapperCleanupAlgorithm::Number));
    let none: Option<SnapperCleanupAlgorithm> = MaybeSnapperCleanupAlgorithm::Unset.into();
    assert_eq!(none, None);
}

#[test]
fn options_give_the_snapper_backend() {
    let cli = Cli {
        verbose: None,
        document_root: "/var/www/nextcloud".to_string(),
        update: false,
        admin: "admin".to_string(),
        notification: true,
        dry_run: false,
        log_prefix: "log-".to_string(),
        log_days: 3,
        backup_days: 35,
        backup_root: "/backup".to_string(),
        snapper: true,
        snapper_args: SnapperArgs {
            sync_destination: Some("/mnt/sync".to_string()),
            cleanup: MaybeSnapperCleanupAlgorithm::SnapperCleanupAlgorithm(SnapperCleanupAlgorithm::Number),
            no_incrementally: true,
        },
        action: None,
    };
    let s = cli.snapper_backend();
    assert_eq!(s.cleanup_algorithm, Some(SnapperCleanupAlgorithm::Number));
    assert_eq!(s.sync_destination.as_deref(), Some("/mnt/sync"));
    assert!(!s.incrementally);
    assert_eq!(cli.action(), Action::Backup);
}

#[test]
fn snapper_listings() {
    let configs = vec![
        ConfigRecord { config: Some("root".to_string()), subvolume: Some("/".to_string()) },
        ConfigRecord { config: None, subvolume: Some("/srv/data".to_string()) },
        ConfigRecord { config: Some("data".to_string()), subvolume: Some("/srv/data".to_string()) },
    ];
    let cfg = SnapperConfig::by_dir(&configs, "/srv/data").unwrap();
    assert_eq!(cfg.config_id, "data");
    assert!(SnapperConfig::by_dir(&configs, "/home").is_none());
    assert!(SnapperConfig::config_by_id("data", None).is_none());
    let reply = r#"{"SUBVOLUME":"/srv/data","FSTYPE":"btrfs"}"#;
    let by_id = SnapperConfig::config_by_id("data", Some(reply)).unwrap();
    assert_eq!(by_id.subvolume, "/srv/data");
    assert_eq!(by_id.config_id, "data");
    assert!(SnapperConfig::config_by_id("data", Some(r#"{"FSTYPE":"btrfs"}"#)).is_none());
    assert!(SnapperConfig::config_by_id("data", Some("oops")).is_none());
    assert_eq!(SnapperConfig::get_config_command("data"), strs(&["snapper", "--jsonout", "-c", "data", "get-config"]));

    let records = vec![
        SnapshotRecord {
            number: Some(4),
            userdata: Some(vec![("synced".to_string(), Some("false".to_string())), ("n".to_string(), None)]),
            cleanup: Some("number".to_string()),
            date: Some("2024-01-03 10:20:30".to_string()),
        },
        SnapshotRecord { number: None, userdata: None, cleanup: None, date: Some("2024-01-03 10:20:30".to_string()) },
        SnapshotRecord { number: Some(5), userdata: None, cleanup: Some("odd".to_string()), date: Some("2024-02-30 10:20:30".to_string()) },
        SnapshotRecord { number: Some(6), userdata: None, cleanup: Some("odd".to_string()), date: Some("2024-02-28 23:59:59".to_string()) },
    ];
    let snaps = cfg.snapshots(&records);
    assert_eq!(snaps.len(), 2);
    assert_eq!(snaps[0].id, 4);
    assert!(snaps[0].is_unsynced());
    assert_eq!(snaps[0].user_data().len(), 1);
    assert_eq!(snaps[0].cleanup, Some(SnapperCleanupAlgorithm::Number));
    assert_eq!(snaps[0].date, Timestamp::new(2024, 1, 3, 10, 20, 30).unwrap());
    assert_eq!(snaps[1].id, 6);
    assert_eq!(snaps[1].cleanup, None);
    assert_eq!(snaps[1].date, Timestamp::new(2024, 2, 28, 23, 59, 59).unwrap());
}

#[test]
fn snapshot_creation_command() {
    let cfg = SnapperConfig { subvolume: "/srv/data".to_string(), config_id: "data".to_string() };
    assert_eq!(
        cfg.create_snapshot(Some(SnapperCleanupAlgorithm::Timeline)),
        strs(&["snapper", "-c", "data", "create", "-p", "-u", "synced=false", "--description", "Full Nextcloud Backup", "-c", "timeline"])
    );
    assert_eq!(cfg.create_snapshot(None).len(), 9);
    assert_eq!(SnapperConfig::created_id(" 42\n"), Some(42));
    assert_eq!(SnapperConfig::created_id("x"), None);
}

#[test]
fn json_listings() {
    let configs = r#"{"configs":[{"config":"root","subvolume":"/"},{"config":"data","subvolume":"/srv/data"}]}"#;
    let found = SnapperConfig::by_dir_in_listing(configs, "/srv/data").unwrap().unwrap();
    assert_eq!(found.config_id, "data");
    assert_eq!(found.subvolume, "/srv/data");
    assert!(SnapperConfig::by_dir_in_listing(configs, "/home").unwrap().is_none());
    assert!(SnapperConfig::by_dir_in_listing("not json", "/").is_none());
    assert!(SnapperConfig::by_dir_in_listing(r#"{"other":[]}"#, "/").is_none());

    let listed = r#"{"data":[
        {"number":0,"userdata":null,"cleanup":"","date":""},
        {"number":7,"userdata":{"synced":"false","n":1},"cleanup":"timeline","date":"2024-01-03 10:20:30"}
    ]}"#;
    let snaps = found.snapshots_in_listing(listed).unwrap();
    assert_eq!(snaps.len(), 1);
    assert_eq!(snaps[0].id, 7);
    assert!(snaps[0].is_unsynced());
    assert_eq!(snaps[0].user_data().len(), 1);
    assert_eq!(snaps[0].cleanup, Some(SnapperCleanupAlgorithm::Timeline));
    assert!(found.snapshots_in_listing(r#"{"root":[]}"#).is_none());
    assert_eq!(found.snapshots_in_listing(r#"{"data":[]}"#).unwrap().len(), 0);
}

#[test]
fn subvolumes_compare_as_paths() {
    let configs = vec![
        ConfigRecord { config: Some("rel".to_string()), subvolume: Some("srv/data".to_string()) },
        ConfigRecord { config: Some("data".to_string()), subvolume: Some("/srv/data/".to_string()) },
    ];
    let found = SnapperConfig::by_dir(&configs, "/srv/data").unwrap();
    assert_eq!(found.config_id, "data");
    assert_eq!(found.subvolume, "/srv/data/");
    assert_eq!(SnapperConfig::by_dir(&configs, "//srv//./data").unwrap().config_id, "data");
    assert_eq!(SnapperConfig::by_dir(&configs, "srv/data/.").unwrap().config_id, "rel");
    assert!(SnapperConfig::by_dir(&configs, "/srv/data/x").is_none());
    assert!(SnapperConfig::by_dir(&configs, "/srv").is_none());
}

#[test]
fn config_backup_contents() {
    let config = Config::new("/backup");
    let now = Timestamp::new(2024, 1, 3, 4, 5, 6).unwrap();
    let lines = strs(&["<?php", "  'dbpassword' => 'secret123',", ");"]);
    let backup: ConfigBackup = config.backup(&lines, &now).unwrap();
    assert_eq!(backup.file, "/backup/config/config-2024-01-03T04-05-06.php.gz");
    assert_eq!(backup.lines, strs(&["<?php", "  'dbpassword' => 'DBPASSWORD',", ");"]));
    assert!(backup.masked);
    let plain = config.backup(&strs(&["<?php"]), &now).unwrap();
    assert_eq!(plain.lines, strs(&["<?php"]));
    assert!(!plain.masked);
}
