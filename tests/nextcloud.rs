use nc_backup_lib::nextcloud::{Nextcloud, NextcloudError, Occ, OccError, OccPathError, ProcessOutput, DEFAULT_INSTALLATION_ROOT};

fn strs(v: &[&str]) -> Vec<String> {
    v.iter().map(|s| s.to_string()).collect()
}

fn nc() -> Nextcloud {
    Nextcloud::new(DEFAULT_INSTALLATION_ROOT.to_string(), true, Ok(true)).unwrap()
}

#[test]
fn installation_paths() {
    let n = nc();
    assert_eq!(n.document_root(), "/var/www/nextcloud/");
    assert_eq!(n.config(), "/var/www/nextcloud/config/config.php");
    assert_eq!(n.occ().occ, "/var/www/nextcloud/occ");
    let plain = Nextcloud::new("/srv/nc".to_string(), true, Ok(true)).unwrap();
    assert_eq!(plain.config(), "/srv/nc/config/config.php");
    assert_eq!(Nextcloud::occ_path("/srv/nc"), "/srv/nc/occ");
}

#[test]
fn installation_errors() {
    match Nextcloud::new("/nowhere".to_string(), false, Ok(true)) {
        Err(NextcloudError::InstalltionNotFound(p)) => assert_eq!(p, "/nowhere"),
        other => panic!("unexpected {other:?}"),
    }
    match Nextcloud::new("/srv/nc".to_string(), true, Ok(false)) {
        Err(NextcloudError::Occ(OccPathError::PathNotFound(p))) => assert_eq!(p, "/srv/nc/occ"),
        other => panic!("unexpected {other:?}"),
    }
    match Occ::new("/srv/nc/occ".to_string(), Err("permission denied".to_string())) {
        Err(OccPathError::IoError(m)) => assert_eq!(m, "permission denied"),
        other => panic!("unexpected {other:?}"),
    }
}

#[test]
fn occ_command_lines() {
    let n = nc();
    let occ = n.occ();
    let base = ["php", "/var/www/nextcloud/occ", "--no-warnings"];
    let with = |rest: &[&str]| {
        let mut v = strs(&base);
        v.extend(strs(rest));
        v
    };
    assert_eq!(occ.maintenance(), with(&["maintenance:mode"]));
    assert_eq!(occ.enable_maintenance(), with(&["maintenance:mode", "--on"]));
    assert_eq!(occ.disable_maintenance(), with(&["maintenance:mode", "--off"]));
    assert_eq!(occ.data_directory(), with(&["config:system:get", "datadirectory"]));
    assert_eq!(occ.db_name(), with(&["config:system:get", "dbname"]));
    assert_eq!(occ.db_user(), with(&["config:system:get", "dbuser"]));
    assert_eq!(occ.update_apps(true), with(&["app:update", "--show-only"]));
    assert_eq!(occ.update_apps(false), with(&["app:update", "--all"]));
    assert_eq!(occ.notify("admin", "done"), with(&["notification::generate", "admin", "done"]));
}

#[test]
fn occ_replies() {
    let occ = nc().occ().clone();
    let line = occ.db_name();
    let ok = ProcessOutput { success: true, stdout: "nextcloud \n\n".to_string(), stderr: String::new() };
    assert_eq!(occ.reply(line.clone(), ok).unwrap(), "nextcloud");
    let failed = ProcessOutput { success: false, stdout: String::new(), stderr: "no such key".to_string() };
    match occ.reply(line.clone(), failed) {
        Err(OccError::OccCommandFailed { command, error }) => {
            assert_eq!(command, line);
            assert_eq!(error, "no such key");
        }
        other => panic!("unexpected {other:?}"),
    }
}

#[test]
fn maintenance_state() {
    assert!(Occ::maintenance_enabled("Maintenance mode is currently enabled"));
    assert!(!Occ::maintenance_enabled("Maintenance mode is currently disabled"));
    assert!(Occ::confirm_maintenance(true, Ok("Maintenance mode is currently enabled".to_string())).is_ok());
    assert!(matches!(
        Occ::confirm_maintenance(true, Ok("Maintenance mode is currently disabled".to_string())),
        Err(OccError::MaintenanceUnchanged)
    ));
    assert!(Occ::confirm_maintenance(false, Ok("Maintenance mode is currently disabled".to_string())).is_ok());
    assert!(matches!(
        Occ::confirm_maintenance(false, Err(OccError::IoError("gone".to_string()))),
        Err(OccError::IoError(_))
    ));
}
