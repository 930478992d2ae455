//! A Nextcloud installation and the command lines of its `occ` tool.
//!
//! Nothing here runs a process: `Occ` builds each command line and reads the
//! reply that the caller got from running it.

use vstd::prelude::*;
use crate::text::{joined, join_path, occurs_in, contains_text, views};

verus! {

/// Where Nextcloud is installed on Ubuntu.
pub const DEFAULT_INSTALLATION_ROOT: &'static str = "/var/www/nextcloud/";

/// Text with its trailing whitespace removed.
pub uninterp spec fn trimmed_end(s: Seq<char>) -> Seq<char>;

/// Relies on `str::trim_end`: removes the trailing Unicode whitespace, so the
/// result is a prefix of the text.
#[verifier::external_body]
pub(crate) fn trim_end(s: &str) -> (r: String)
    ensures
        r@ == trimmed_end(s@),
        r@.is_prefix_of(s@),
{
    s.trim_end().to_string()
}

/// Text with its leading and trailing whitespace removed.
pub uninterp spec fn trimmed(s: Seq<char>) -> Seq<char>;

/// Relies on `str::trim`: removes the leading and trailing Unicode
/// whitespace, so the result is a part of the text.
#[verifier::external_body]
pub(crate) fn trim(s: &str) -> (r: String)
    ensures
        r@ == trimmed(s@),
        r@.len() <= s@.len(),
{
    s.trim().to_string()
}

/// Why the `occ` tool could not be located.
#[derive(Clone, Debug)]
pub enum OccPathError {
    /// Nothing exists at the path.
    PathNotFound(String),
    /// Checking the path failed, for this reason.
    IoError(String),
}

/// Why an `occ` command failed.
#[derive(Clone, Debug)]
pub enum OccError {
    /// The command ran and failed.
    OccCommandFailed {
        /// The command line.
        command: Vec<String>,
        /// What it wrote to its error stream.
        error: String,
    },
    /// The command could not be run, for this reason.
    IoError(String),
    /// Maintenance mode is not in the state it was just switched to.
    MaintenanceUnchanged,
}

/// What a finished process left: whether it succeeded, and its two output
/// streams.
#[derive(Clone, Debug)]
pub struct ProcessOutput {
    pub success: bool,
    pub stdout: String,
    pub stderr: String,
}

/// The command line of `occ` at `occ` running `command` with `args`.
pub open spec fn occ_line(occ: Seq<char>, command: Seq<char>, args: Seq<Seq<char>>) -> Seq<Seq<char>> {
    seq!["php"@, occ, "--no-warnings"@, command] + args
}

/// The reply of `occ` names maintenance mode as enabled.
pub open spec fn reports_enabled(reply: Seq<char>) -> bool {
    occurs_in(reply, "enabled"@)
}

/// Access to the command-line tool of a Nextcloud installation.
#[derive(Clone, Debug)]
pub struct Occ {
    pub occ: String,
}

impl Occ {
    /// An `occ` at `occ_path`. `exists` is what checking that path gave:
    /// whether something is there, or why the check failed.
    pub fn new(occ_path: String, exists: Result<bool, String>) -> (r: Result<Occ, OccPathError>)
        ensures
            exists matches Ok(true) ==> (r matches Ok(o) && o.occ@ == occ_path@),
            exists matches Ok(false) ==> (r matches Err(OccPathError::PathNotFound(p)) && p@ == occ_path@),
            exists matches Err(e) ==> (r matches Err(OccPathError::IoError(m)) && m@ == e@),
    {
        match exists {
            Ok(true) => Ok(Occ { occ: occ_path }),
            Ok(false) => Err(OccPathError::PathNotFound(occ_path)),
            Err(e) => Err(OccPathError::IoError(e)),
        }
    }

    /// The command line that runs `command` with `args`.
    pub fn command_line(&self, command: &str, args: &Vec<String>) -> (r: Vec<String>)
        ensures
            views(r@) == occ_line(self.occ@, command@, views(args@)),
    {
        let mut line: Vec<String> = Vec::new();
        line.push(String::from_str("php"));
        line.push(self.occ.clone());
        line.push(String::from_str("--no-warnings"));
        line.push(String::from_str(command));
        let mut i: usize = 0;
        while i < args.len()
            invariant
                i <= args@.len(),
                views(line@) == occ_line(self.occ@, command@, views(args@.subrange(0, i as int))),
            decreases args.len() - i,
        {
            let ghost prev = line@;
            line.push(args[i].clone());
            assert(views(line@) =~= views(prev).push(args@[i as int]@));
            assert(views(args@.subrange(0, i + 1)) =~= views(args@.subrange(0, i as int)).push(args@[i as int]@));
            assert(views(line@) =~= occ_line(self.occ@, command@, views(args@.subrange(0, i + 1))));
            i += 1;
        }
        assert(args@.subrange(0, args@.len() as int) =~= args@);
        line
    }

    /// The reply of the command `line` from what its process left: the output
    /// without trailing whitespace, or the error stream if it failed.
    pub fn reply(&self, line: Vec<String>, output: ProcessOutput) -> (r: Result<String, OccError>)
        ensures
            output.success ==> (r matches Ok(s) && s@ == trimmed_end(output.stdout@)),
            !output.success ==> (r matches Err(OccError::OccCommandFailed { command, error }) && command
                == line && error@ == output.stderr@),
    {
        if !output.success {
            return Err(OccError::OccCommandFailed { command: line, error: output.stderr });
        }
        Ok(trim_end(output.stdout.as_str()))
    }

    /// The query whether maintenance mode is on.
    pub fn maintenance(&self) -> (r: Vec<String>)
        ensures
            views(r@) == occ_line(self.occ@, "maintenance:mode"@, Seq::empty()),
    {
        let args: Vec<String> = Vec::new();
        assert(views(args@) =~= Seq::empty());
        self.command_line("maintenance:mode", &args)
    }

    /// Whether the reply to the maintenance query says that it is on.
    pub fn maintenance_enabled(reply: &str) -> (r: bool)
        ensures
            r == reports_enabled(reply@),
    {
        contains_text(reply, "enabled")
    }

    /// The command that switches maintenance mode on.
    pub fn enable_maintenance(&self) -> (r: Vec<String>)
        ensures
            views(r@) == occ_line(self.occ@, "maintenance:mode"@, seq!["--on"@]),
    {
        let args: Vec<String> = vec![String::from_str("--on")];
        assert(views(args@) =~= seq!["--on"@]);
        self.command_line("maintenance:mode", &args)
    }

    /// The command that switches maintenance mode off.
    pub fn disable_maintenance(&self) -> (r: Vec<String>)
        ensures
            views(r@) == occ_line(self.occ@, "maintenance:mode"@, seq!["--off"@]),
    {
        let args: Vec<String> = vec![String::from_str("--off")];
        assert(views(args@) =~= seq!["--off"@]);
        self.command_line("maintenance:mode", &args)
    }

    /// Checks, from the reply to the maintenance query made after switching,
    /// that maintenance mode is now `on` (or off).
    pub fn confirm_maintenance(on: bool, status: Result<String, OccError>) -> (r: Result<(), OccError>)
        ensures
            status matches Ok(s) && reports_enabled(s@) == on ==> r is Ok,
            status matches Ok(s) && reports_enabled(s@) != on ==> r matches Err(OccError::MaintenanceUnchanged),
            status matches Err(e) ==> r == Err::<(), OccError>(e),
    {
        match status {
            Ok(s) => {
                if Occ::maintenance_enabled(s.as_str()) == on {
                    Ok(())
                } else {
                    Err(OccError::MaintenanceUnchanged)
                }
            },
            Err(e) => Err(e),
        }
    }

    /// The query for a system setting.
    fn system_setting(&self, key: &str) -> (r: Vec<String>)
        ensures
            views(r@) == occ_line(self.occ@, "config:system:get"@, seq![key@]),
    {
        let args: Vec<String> = vec![String::from_str(key)];
        assert(views(args@) =~= seq![key@]);
        self.command_line("config:system:get", &args)
    }

    /// The query for the data directory of Nextcloud.
    pub fn data_directory(&self) -> (r: Vec<String>)
        ensures
            views(r@) == occ_line(self.occ@, "config:system:get"@, seq!["datadirectory"@]),
    {
        self.system_setting("datadirectory")
    }

    /// The query for the name of the database.
    pub fn db_name(&self) -> (r: Vec<String>)
        ensures
            views(r@) == occ_line(self.occ@, "config:system:get"@, seq!["dbname"@]),
    {
        self.system_setting("dbname")
    }

    /// The query for the database user.
    pub fn db_user(&self) -> (r: Vec<String>)
        ensures
            views(r@) == occ_line(self.occ@, "config:system:get"@, seq!["dbuser"@]),
    {
        self.system_setting("dbuser")
    }

    /// The command that updates all apps, or only lists the updates.
    pub fn update_apps(&self, show_only: bool) -> (r: Vec<String>)
        ensures
            views(r@) == occ_line(
                self.occ@,
                "app:update"@,
                seq![if show_only { "--show-only"@ } else { "--all"@ }],
            ),
    {
        let opt = if show_only {
            "--show-only"
        } else {
            "--all"
        };
        let args: Vec<String> = vec![String::from_str(opt)];
        assert(views(args@) =~= seq![opt@]);
        self.command_line("app:update", &args)
    }

    /// The command that sends `message` to the Nextcloud account `user`.
    pub fn notify(&self, user: &str, message: &str) -> (r: Vec<String>)
        ensures
            views(r@) == occ_line(self.occ@, "notification::generate"@, seq![user@, message@]),
    {
        let args: Vec<String> = vec![String::from_str(user), String::from_str(message)];
        assert(views(args@) =~= seq![user@, message@]);
        self.command_line("notification::generate", &args)
    }
}

/// Why a Nextcloud installation could not be used.
#[derive(Clone, Debug)]
pub enum NextcloudError {
    /// The installation directory does not exist.
    InstalltionNotFound(String),
    /// The `occ` tool could not be located.
    Occ(OccPathError),
}

/// A Nextcloud installation.
#[derive(Clone, Debug)]
pub struct Nextcloud {
    pub occ: Occ,
    pub document_root: String,
}

impl Nextcloud {
    /// Where the `occ` tool of the installation at `installation_root` lies.
    pub fn occ_path(installation_root: &str) -> (r: String)
        ensures
            r@ == joined(installation_root@, "occ"@),
    {
        join_path(installation_root, "occ")
    }

    /// The installation at `installation_root`. `root_is_dir` says whether
    /// that directory exists, `occ_exists` what checking `occ_path` gave.
    pub fn new(installation_root: String, root_is_dir: bool, occ_exists: Result<bool, String>) -> (r:
        Result<Nextcloud, NextcloudError>)
        ensures
            !root_is_dir ==> (r matches Err(NextcloudError::InstalltionNotFound(p)) && p@
                == installation_root@),
            root_is_dir && occ_exists == Ok::<bool, String>(true) ==> (r matches Ok(n) && n.document_root@
                == installation_root@ && n.occ.occ@ == joined(installation_root@, "occ"@)),
            root_is_dir && occ_exists == Ok::<bool, String>(false) ==> (r matches Err(
                NextcloudError::Occ(OccPathError::PathNotFound(p)),
            ) && p@ == joined(installation_root@, "occ"@)),
            root_is_dir && occ_exists is Err ==> (r matches Err(NextcloudError::Occ(OccPathError::IoError(m)))
                && m@ == occ_exists->Err_0@),
    {
        if !root_is_dir {
            return Err(NextcloudError::InstalltionNotFound(installation_root));
        }
        let occ_path = Nextcloud::occ_path(installation_root.as_str());
        match Occ::new(occ_path, occ_exists) {
            Ok(occ) => Ok(Nextcloud { occ, document_root: installation_root }),
            Err(e) => Err(NextcloudError::Occ(e)),
        }
    }

    /// The directory that holds the files of the installed Nextcloud.
    pub fn document_root(&self) -> (r: &str)
        ensures
            r@ == self.document_root@,
    {
        self.document_root.as_str()
    }

    /// Where the `config.php` of the installation lies.
    pub fn config(&self) -> (r: String)
        ensures
            r@ == joined(self.document_root@, "config/config.php"@),
    {
        join_path(self.document_root.as_str(), "config/config.php")
    }

    /// The command-line tool of the installation.
    pub fn occ(&self) -> (r: &Occ)
        ensures
            *r == self.occ,
    {
        &self.occ
    }
}

} // verus!
