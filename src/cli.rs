//! The options of a backup run, as plain values.

use vstd::prelude::*;
use crate::backends::Snapper;
use crate::nextcloud::{trim, trimmed};
use crate::snapshot::{SnapperCleanupAlgorithm, UnkownCleanupAlgorithm};

verus! {

/// How much is logged.
#[derive(Clone, Copy, Debug, PartialEq, Eq, Structural)]
pub enum Verbosity {
    Off,
    Error,
    Warn,
    Info,
    Debug,
    Trace,
}

/// What a run does.
#[derive(Clone, Copy, Debug, PartialEq, Eq, Structural)]
pub enum Action {
    /// Back up the configuration, the database and the data.
    Backup,
}

impl Default for Action {
    fn default() -> (r: Action)
        ensures
            r == Action::Backup,
    {
        Action::Backup
    }
}

/// A cleanup algorithm, or none.
#[derive(Clone, Copy, Debug, PartialEq, Eq, Structural)]
pub enum MaybeSnapperCleanupAlgorithm {
    Unset,
    SnapperCleanupAlgorithm(SnapperCleanupAlgorithm),
}

impl MaybeSnapperCleanupAlgorithm {
    /// The algorithm named `s`; blank text names none.
    pub fn parse(s: &str) -> (r: Result<MaybeSnapperCleanupAlgorithm, UnkownCleanupAlgorithm>)
        ensures
            trimmed(s@).len() == 0 ==> r == Ok::<_, UnkownCleanupAlgorithm>(MaybeSnapperCleanupAlgorithm::Unset),
            trimmed(s@).len() != 0 && s@ == "number"@ ==> r == Ok::<_, UnkownCleanupAlgorithm>(
                MaybeSnapperCleanupAlgorithm::SnapperCleanupAlgorithm(SnapperCleanupAlgorithm::Number),
            ),
            trimmed(s@).len() != 0 && s@ == "timeline"@ ==> r == Ok::<_, UnkownCleanupAlgorithm>(
                MaybeSnapperCleanupAlgorithm::SnapperCleanupAlgorithm(SnapperCleanupAlgorithm::Timeline),
            ),
            trimmed(s@).len() != 0 && s@ != "number"@ && s@ != "timeline"@ ==> (r matches Err(e) && e.0@
                == s@),
    {
        let rest = trim(s);
        if rest.unicode_len() == 0 {
            return Ok(MaybeSnapperCleanupAlgorithm::Unset);
        }
        match SnapperCleanupAlgorithm::parse_name(s) {
            Ok(c) => Ok(MaybeSnapperCleanupAlgorithm::SnapperCleanupAlgorithm(c)),
            Err(e) => Err(e),
        }
    }

    /// The algorithm, if there is one.
    pub fn algorithm(self) -> (r: Option<SnapperCleanupAlgorithm>)
        ensures
            r == self.algorithm_spec(),
    {
        match self {
            MaybeSnapperCleanupAlgorithm::Unset => None,
            MaybeSnapperCleanupAlgorithm::SnapperCleanupAlgorithm(c) => Some(c),
        }
    }

    pub open spec fn algorithm_spec(self) -> Option<SnapperCleanupAlgorithm> {
        match self {
            MaybeSnapperCleanupAlgorithm::Unset => None,
            MaybeSnapperCleanupAlgorithm::SnapperCleanupAlgorithm(c) => Some(c),
        }
    }
}

impl std::str::FromStr for MaybeSnapperCleanupAlgorithm {
    type Err = UnkownCleanupAlgorithm;

    fn from_str(s: &str) -> Result<MaybeSnapperCleanupAlgorithm, UnkownCleanupAlgorithm> {
        MaybeSnapperCleanupAlgorithm::parse(s)
    }
}

impl From<MaybeSnapperCleanupAlgorithm> for Option<SnapperCleanupAlgorithm> {
    fn from(value: MaybeSnapperCleanupAlgorithm) -> (r: Option<SnapperCleanupAlgorithm>)
        ensures
            r == value.algorithm_spec(),
    {
        value.algorithm()
    }
}

impl vstd::std_specs::convert::FromSpecImpl<MaybeSnapperCleanupAlgorithm> for Option<SnapperCleanupAlgorithm> {
    open spec fn obeys_from_spec() -> bool {
        true
    }

    open spec fn from_spec(value: MaybeSnapperCleanupAlgorithm) -> Option<SnapperCleanupAlgorithm> {
        value.algorithm_spec()
    }
}

/// Options of the snapper backend.
#[derive(Clone, Debug)]
pub struct SnapperArgs {
    /// Where snapshots are synced to.
    pub sync_destination: Option<String>,
    /// How snapper later cleans up the snapshots made.
    pub cleanup: MaybeSnapperCleanupAlgorithm,
    /// Sync every snapshot in full.
    pub no_incrementally: bool,
}

/// The options of a backup run.
#[derive(Clone, Debug)]
pub struct Cli {
    /// How much is logged.
    pub verbose: Option<Verbosity>,
    /// Root directory of the Nextcloud installation.
    pub document_root: String,
    /// Update the Nextcloud apps after the backup.
    pub update: bool,
    /// Account that receives the notification.
    pub admin: String,
    /// Send a notification to the admin account.
    pub notification: bool,
    /// Check everything but write and delete nothing.
    pub dry_run: bool,
    /// Prefix of the log files.
    pub log_prefix: String,
    /// Days of log files to keep.
    pub log_days: u8,
    /// Days of configuration and database backups to keep.
    pub backup_days: u8,
    /// Directory for configuration and database backups.
    pub backup_root: String,
    /// Back up the data with snapper.
    pub snapper: bool,
    /// Options of the snapper backend.
    pub snapper_args: SnapperArgs,
    /// What to do.
    pub action: Option<Action>,
}

impl Cli {
    /// The snapper backend these options ask for.
    pub fn snapper_backend(&self) -> (r: Snapper)
        ensures
            r.cleanup_algorithm == self.snapper_args.cleanup.algorithm_spec(),
            r.sync_destination == self.snapper_args.sync_destination,
            r.incrementally == !self.snapper_args.no_incrementally,
    {
        Snapper {
            cleanup_algorithm: self.snapper_args.cleanup.algorithm(),
            sync_destination: self.snapper_args.sync_destination.clone(),
            incrementally: !self.snapper_args.no_incrementally,
        }
    }

    /// The action asked for; backup when none is named.
    pub fn action(&self) -> (r: Action)
        ensures
            r == Action::Backup,
    {
        match self.action {
            Some(a) => a,
            None => Action::default(),
        }
    }
}

} // verus!
