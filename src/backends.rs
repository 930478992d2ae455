//! The backup backends: the configuration file, the database dump and the
//! snapper snapshots of the data directory, and how their outcomes combine.

use vstd::prelude::*;
use crate::chain::{SnapshotChain, SyncStep, ChainError, sync_plan, plan_syncs, creation_sorted, sole_anchor, promotion, no_anchor, several_anchors};
use crate::date::{Timestamp, timestamp_label, label};
use crate::nextcloud::{Nextcloud, OccError};
use crate::snapshot::SnapperCleanupAlgorithm;
use crate::text::{joined, join_path, decimal, push_decimal, parse_u64, is_decimal, digits_value, unsigned_digits, views};
use crate::transfer::SyncSnapshotError;
use crate::masking::{mask_password, masked, has_password_line, regex_compiles, PASSWORD_PATTERN};

verus! {

/// Backs up data that a backend manages. On a dry run every check is made,
/// but nothing is written or deleted.
pub trait Backup {
    /// What can go wrong.
    type Error;

    /// Backs up the data of `nextcloud`.
    fn backup(&mut self, nextcloud: &Nextcloud, dry_run: bool) -> Result<(), Self::Error>;
}

/// Subdirectory of the backup root for configuration backups.
pub const CONFIG_BACKUP_DEST: &'static str = "config/";

/// Subdirectory of the backup root for database dumps.
pub const DB_DUMP_DEST: &'static str = "db/";

/// Backup of Nextcloud's `config.php`, with the database password masked.
#[derive(Clone, Debug)]
pub struct Config {
    pub config_backup_dest: String,
}

impl Config {
    /// The backend that writes into `config/` under `backup_root`.
    pub fn new(backup_root: &str) -> (r: Config)
        ensures
            r.config_backup_dest@ == joined(backup_root@, CONFIG_BACKUP_DEST@),
    {
        Config { config_backup_dest: join_path(backup_root, CONFIG_BACKUP_DEST) }
    }

    /// The file for a backup made at `now`: `config-<label>.php.gz`.
    pub fn generate_config_backup_filename(&self, now: &Timestamp) -> (r: String)
        requires
            now.wf(),
        ensures
            r@ == joined(self.config_backup_dest@, "config-"@ + timestamp_label(*now) + ".php.gz"@),
    {
        let mut name = String::from_str("config-");
        let stamp = label(now);
        name.append(stamp.as_str());
        name.append(".php.gz");
        join_path(self.config_backup_dest.as_str(), name.as_str())
    }
}

/// What a backup of the configuration writes: the file, its lines, and
/// whether a password was found and masked.
#[derive(Clone, Debug)]
pub struct ConfigBackup {
    pub file: String,
    pub lines: Vec<String>,
    pub masked: bool,
}

impl Config {
    /// The backup of the configuration `config_lines` made at `now`: the
    /// file `config-<label>.php.gz` and the lines with the password of the
    /// first line that assigns it masked. `None` if the password pattern
    /// does not compile.
    pub fn backup(&self, config_lines: &Vec<String>, now: &Timestamp) -> (r: Option<ConfigBackup>)
        requires
            now.wf(),
        ensures
            r is None <==> !regex_compiles(PASSWORD_PATTERN@),
            r matches Some(b) ==> b.file@ == joined(
                self.config_backup_dest@,
                "config-"@ + timestamp_label(*now) + ".php.gz"@,
            ) && views(b.lines@) == masked(views(config_lines@)) && b.masked == has_password_line(
                views(config_lines@),
            ),
    {
        match mask_password(config_lines) {
            None => None,
            Some((lines, found)) => Some(
                ConfigBackup { file: self.generate_config_backup_filename(now), lines, masked: found },
            ),
        }
    }
}

/// Backup of the Nextcloud database with `mariadb-dump`.
#[derive(Clone, Debug)]
pub struct MariaDb {
    pub db_dump_dest: String,
}

/// Why the database backup failed.
#[derive(Clone, Debug)]
pub enum MariaDbError {
    /// The dump tool exited with this status.
    DumpFailed(String),
    /// The dump tool could not be started.
    MariaDbDump(String),
    /// The dump file already exists; it is never overwritten.
    DestinationExists(String),
    /// Asking `occ` for the database settings failed.
    Occ(OccError),
    /// Writing the dump failed.
    Io(String),
}

/// The command line of `mariadb-dump` for `db_name` as `db_user`.
pub open spec fn dump_line(db_user: Seq<char>, db_name: Seq<char>) -> Seq<Seq<char>> {
    seq!["mariadb-dump"@, "--opt"@, "--single-transaction"@, "--user="@ + db_user, db_name]
}

impl MariaDb {
    /// The backend that writes into `db/` under `backup_root`.
    pub fn new(backup_root: &str) -> (r: MariaDb)
        ensures
            r.db_dump_dest@ == joined(backup_root@, DB_DUMP_DEST@),
    {
        MariaDb { db_dump_dest: join_path(backup_root, DB_DUMP_DEST) }
    }

    /// The file for a dump made at `now`: `database-<label>.sql.gz`.
    pub fn generate_db_dump_filename(&self, now: &Timestamp) -> (r: String)
        requires
            now.wf(),
        ensures
            r@ == joined(self.db_dump_dest@, "database-"@ + timestamp_label(*now) + ".sql.gz"@),
    {
        let mut name = String::from_str("database-");
        let stamp = label(now);
        name.append(stamp.as_str());
        name.append(".sql.gz");
        join_path(self.db_dump_dest.as_str(), name.as_str())
    }

    /// The command line that dumps `db_name` as `db_user` to standard output.
    pub fn dump_command(db_user: &str, db_name: &str) -> (r: Vec<String>)
        ensures
            views(r@) == dump_line(db_user@, db_name@),
    {
        let mut user_opt = String::from_str("--user=");
        user_opt.append(db_user);
        let line: Vec<String> = vec![
            String::from_str("mariadb-dump"),
            String::from_str("--opt"),
            String::from_str("--single-transaction"),
            user_opt,
            String::from_str(db_name),
        ];
        assert(views(line@) =~= dump_line(db_user@, db_name@));
        line
    }
}

/// Why the snapper backup failed.
#[derive(Clone, Debug)]
pub enum SnapperBackupError {
    /// No snapper configuration covers this data directory.
    SnapperConfigNotFound(String),
    /// The sync destination could not be created, for this reason.
    SyncDestinationCantBeCreated(String),
    /// Reading the snapper configurations failed, for this reason.
    SnapperConfig(String),
    /// Creating the backup snapshot failed, for this reason.
    CreationFailed(String),
    /// The anchor could not be determined.
    ObtainingAnchorFailed(ChainError),
    /// Listing the snapshots failed, for this reason.
    ObtainingUnsyncedFailed(String),
    /// A snapshot could not be synced.
    Sync(SyncSnapshotError),
    /// After syncing there is no snapshot to anchor the next sync.
    NoAnchor,
    /// The snapshot to anchor the next sync, by its number, is not synced.
    AnchorNotSynced(u64),
    /// Writing a snapshot's tags back to snapper failed, for this reason.
    UpdateFailed(String),
    /// An `occ` command failed.
    Occ(OccError),
}

/// A directory found at the sync destination: its name, and whether it
/// holds a received snapshot (a `snapshot/` subdirectory).
#[derive(Clone, Debug)]
pub struct DestinationEntry {
    pub name: String,
    pub holds_snapshot: bool,
}

/// The snapshot number that the directory `name` stands for, if it is one.
pub open spec fn entry_id(name: Seq<char>) -> Option<u64> {
    if is_decimal(name) && digits_value(unsigned_digits(name)) <= u64::MAX {
        Some(digits_value(unsigned_digits(name)) as u64)
    } else {
        None
    }
}

/// The positions in `entries` of the snapshots at the destination that are
/// no longer among `present` at the source, in order.
pub open spec fn stale_entries(present: Seq<u64>, entries: Seq<(Seq<char>, bool)>) -> Seq<usize>
    decreases entries.len(),
{
    if entries.len() == 0 {
        Seq::empty()
    } else {
        let rest = stale_entries(present, entries.drop_last());
        let (name, holds) = entries.last();
        match entry_id(name) {
            Some(id) => if holds && !present.contains(id) {
                rest.push((entries.len() - 1) as usize)
            } else {
                rest
            },
            None => rest,
        }
    }
}

pub open spec fn entries_view(entries: Seq<DestinationEntry>) -> Seq<(Seq<char>, bool)> {
    entries.map_values(|e: DestinationEntry| (e.name@, e.holds_snapshot))
}

fn contains_id(ids: &Vec<u64>, id: u64) -> (r: bool)
    ensures
        r == ids@.contains(id),
{
    let mut i: usize = 0;
    while i < ids.len()
        invariant
            i <= ids@.len(),
            forall|j: int| 0 <= j < i ==> ids@[j] != id,
        decreases ids.len() - i,
    {
        if ids[i] == id {
            return true;
        }
        i += 1;
    }
    false
}

/// A backend for the data directory: snapper snapshots, optionally synced
/// to another place.
#[derive(Clone, Debug)]
pub struct Snapper {
    /// How snapper cleans up the snapshots made here (none for `None`).
    pub cleanup_algorithm: Option<SnapperCleanupAlgorithm>,
    /// Where snapshots are synced to, if anywhere.
    pub sync_destination: Option<String>,
    /// Whether snapshots are synced as deltas against the anchor.
    pub incrementally: bool,
}

impl Snapper {
    /// The entries at the sync destination, by position, that hold a
    /// snapshot no longer existing at the source. Without a listing of the
    /// source (`None`) nothing is deleted.
    pub fn deletions_to_sync(present: Option<&Vec<u64>>, entries: &Vec<DestinationEntry>) -> (r: Vec<usize>)
        ensures
            present is None ==> r@.len() == 0,
            present matches Some(p) ==> r@ == stale_entries(p@, entries_view(entries@)),
    {
        let mut stale: Vec<usize> = Vec::new();
        let p = match present {
            None => return stale,
            Some(p) => p,
        };
        let mut i: usize = 0;
        while i < entries.len()
            invariant
                i <= entries@.len(),
                stale@ == stale_entries(p@, entries_view(entries@).subrange(0, i as int)),
            decreases entries.len() - i,
        {
            let ghost sub = entries_view(entries@).subrange(0, i + 1);
            assert(sub.drop_last() =~= entries_view(entries@).subrange(0, i as int));
            let entry = &entries[i];
            if entry.holds_snapshot {
                match parse_u64(entry.name.as_str()) {
                    Some(id) => {
                        if !contains_id(p, id) {
                            stale.push(i);
                        }
                    },
                    None => {},
                }
            }
            i += 1;
        }
        assert(entries_view(entries@).subrange(0, entries@.len() as int) =~= entries_view(entries@));
        stale
    }

    /// The command line that deletes the received snapshot in the directory
    /// `entry_path` at the sync destination.
    pub fn deletion_command(entry_path: &str, verbose: bool) -> (r: Vec<String>)
        ensures
            views(r@) == seq!["sudo"@, "btrfs"@] + (if verbose {
                seq!["-v"@]
            } else {
                Seq::empty()
            }) + seq!["subvolume"@, "delete"@, joined(entry_path@, "snapshot/"@)],
    {
        let mut line: Vec<String> = vec![String::from_str("sudo"), String::from_str("btrfs")];
        if verbose {
            line.push(String::from_str("-v"));
        }
        line.push(String::from_str("subvolume"));
        line.push(String::from_str("delete"));
        line.push(join_path(entry_path, "snapshot/"));
        assert(views(line@) =~= seq!["sudo"@, "btrfs"@] + (if verbose {
            seq!["-v"@]
        } else {
            Seq::empty()
        }) + seq!["subvolume"@, "delete"@, joined(entry_path@, "snapshot/"@)]);
        line
    }

    /// Where the snapshot numbered `id` is received under `destination`.
    pub fn step_destination(destination: &str, id: u64) -> (r: String)
        ensures
            r@ == joined(destination@, decimal(id as nat) + "/"@),
    {
        proof {
            reveal_strlit("/");
        }
        let mut rel = String::new();
        push_decimal(&mut rel, id);
        rel.append("/");
        assert(rel@ =~= decimal(id as nat) + "/"@);
        join_path(destination, rel.as_str())
    }

    /// The anchor before the cycle and the transfers of a backup cycle over
    /// `chain`: the unsynced snapshots, oldest first, each against the one
    /// before it when syncing incrementally.
    pub fn plan(&self, chain: &SnapshotChain) -> (r: Result<(Option<usize>, Vec<usize>, Vec<SyncStep>), SnapperBackupError>)
        ensures
            several_anchors(chain.snapshots@) ==> (r matches Err(SnapperBackupError::ObtainingAnchorFailed(e))
                && e == ChainError::MultipleAnchors),
            !several_anchors(chain.snapshots@) ==> (r matches Ok((anchor, order, steps)) && (match anchor {
                Some(a) => sole_anchor(chain.snapshots@, a as int),
                None => no_anchor(chain.snapshots@),
            }) && (forall|k: usize|
                order@.contains(k) <==> (k < chain.snapshots@.len() && chain.snapshots@[k as int].unsynced()))
                && order@.no_duplicates() && creation_sorted(chain.snapshots@, order@) && steps@ == sync_plan(
                anchor,
                order@,
                self.incrementally,
            )),
    {
        let anchor = match chain.current_anchor() {
            Ok(a) => a,
            Err(e) => return Err(SnapperBackupError::ObtainingAnchorFailed(e)),
        };
        let order = chain.unsynced_snapshots();
        let steps = plan_syncs(anchor, &order, self.incrementally);
        Ok((anchor, order, steps))
    }

    /// Ends a backup cycle: `new_anchor` (the last snapshot synced, or the old
    /// anchor) becomes the one and only anchor. Returns the snapshots that
    /// changed and must be written back.
    pub fn conclude(chain: &mut SnapshotChain, new_anchor: Option<usize>) -> (r: Result<Vec<usize>, SnapperBackupError>)
        requires
            new_anchor matches Some(i) ==> i < old(chain).snapshots@.len(),
        ensures
            new_anchor is None ==> (r matches Err(SnapperBackupError::NoAnchor) && *final(chain) == *old(chain)),
            new_anchor is Some && !old(chain).snapshots@[new_anchor->0 as int].synced_spec() ==> (r matches Err(
                SnapperBackupError::AnchorNotSynced(id),
            ) && id == old(chain).snapshots@[new_anchor->0 as int].id && *final(chain) == *old(chain)),
            new_anchor is Some && old(chain).snapshots@[new_anchor->0 as int].synced_spec() ==> (r is Ok
                && promotion(
                old(chain).snapshots@,
                final(chain).snapshots@,
                old(chain).cleanup_algorithm,
                new_anchor->0 as int,
            ) && sole_anchor(final(chain).snapshots@, new_anchor->0 as int)
                && final(chain).cleanup_algorithm == old(chain).cleanup_algorithm),
    {
        match new_anchor {
            None => Err(SnapperBackupError::NoAnchor),
            Some(i) => {
                if !chain.snapshots[i].is_synced() {
                    return Err(SnapperBackupError::AnchorNotSynced(chain.snapshots[i].id));
                }
                Ok(chain.promote(i))
            },
        }
    }
}

/// Which backends failed in a run.
#[derive(Clone, Copy, Debug, PartialEq, Eq, Structural)]
pub struct BackupOutcome {
    pub snapper_failed: bool,
    pub config_failed: bool,
    pub mariadb_failed: bool,
}

/// The exit status of a run: one bit per failed backend.
pub open spec fn status_bits(o: BackupOutcome) -> int {
    (if o.snapper_failed { 1int } else { 0int }) + (if o.config_failed { 2int } else { 0int }) + (if o.mariadb_failed {
        4int
    } else {
        0int
    })
}

impl BackupOutcome {
    /// The exit status: bit 0 for snapper, bit 1 for the configuration, bit 2
    /// for the database; 0 when all succeeded.
    pub fn status_code(&self) -> (r: u8)
        ensures
            r as int == status_bits(*self),
    {
        let mut code: u8 = 0;
        if self.snapper_failed {
            code = code + 1;
        }
        if self.config_failed {
            code = code + 2;
        }
        if self.mariadb_failed {
            code = code + 4;
        }
        code
    }
}

/// Each failure has its own bit: the status code tells exactly which
/// backends failed.
pub proof fn lemma_status_code_identifies_failures(a: BackupOutcome, b: BackupOutcome)
    ensures
        status_bits(a) == status_bits(b) ==> a == b,
        status_bits(a) == 0 <==> (!a.snapper_failed && !a.config_failed && !a.mariadb_failed),
{
}

} // verus!
