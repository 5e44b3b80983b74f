//! The backup-engine facade: what the daemon decides around the
//! external engine.
//!
//! The engine itself is an opaque subprocess: the process around the
//! library spawns it, feeds it the arguments and environment computed
//! here, and hands its outcome back. The decisions — which arguments an
//! operation takes, what a failed initialization does to the store, and
//! how a statistics run's output is framed — live here, verified.
//!
//! The invocation contract is fixed for compatibility: every call
//! carries the machine-readable output flag, the operation verb, and
//! file-based (not command-line) references to the repository string and
//! the passphrase, so that secrets never show in a process argument
//! list; a backup run additionally references the include and exclude
//! lists by file.

use vstd::prelude::*;
use vstd::string::StringExecFns;

use crate::backup::keys_wf;
use crate::backup::name_wf;
use crate::backup::Backup;
use crate::error::ServerError;
use crate::store::contains_name;
use crate::store::spec_backup_files;
use crate::store::spec_config_file;
use crate::store::spec_create;
use crate::store::spec_remove;
use crate::store::Configuration;
use crate::store::lemma_create_contains;
use crate::text::spec_trim;
use crate::text::trimmed;

verus! {

/// The arguments of a repository initialization run.
pub open spec fn spec_init_args(base: Seq<char>, name: Seq<char>) -> Seq<Seq<char>> {
    seq![
        "--json"@,
        "init"@,
        "--repository-file"@,
        spec_config_file(base, name, "repo"@),
        "--password-file"@,
        spec_config_file(base, name, "password"@),
    ]
}

/// The arguments of a backup run.
pub open spec fn spec_backup_args(base: Seq<char>, name: Seq<char>) -> Seq<Seq<char>> {
    seq![
        "--json"@,
        "backup"@,
        "--files-from"@,
        spec_config_file(base, name, "include"@),
        "--exclude-file"@,
        spec_config_file(base, name, "exclude"@),
        "--repository-file"@,
        spec_config_file(base, name, "repo"@),
        "--password-file"@,
        spec_config_file(base, name, "password"@),
    ]
}

/// The arguments of a statistics run.
pub open spec fn spec_stats_args(base: Seq<char>, name: Seq<char>) -> Seq<Seq<char>> {
    seq![
        "--json"@,
        "stats"@,
        "--repository-file"@,
        spec_config_file(base, name, "repo"@),
        "--password-file"@,
        spec_config_file(base, name, "password"@),
    ]
}

/// The facade over the external backup engine.
pub struct Restic {}

impl Restic {
    /// The argument list that initializes the repository of `name`.
    pub fn init_args(base: &str, name: &str) -> (r: Vec<String>)
        ensures
            r.deep_view() == spec_init_args(base@, name@),
    {
        let mut v: Vec<String> = Vec::new();
        v.push(String::from_str("--json"));
        v.push(String::from_str("init"));
        v.push(String::from_str("--repository-file"));
        v.push(Configuration::repo_file(base, name));
        v.push(String::from_str("--password-file"));
        v.push(Configuration::password_file(base, name));
        proof {
            assert(v.deep_view() =~= spec_init_args(base@, name@));
        }
        v
    }

    /// The argument list that runs the backup of `name`.
    pub fn backup_args(base: &str, name: &str) -> (r: Vec<String>)
        ensures
            r.deep_view() == spec_backup_args(base@, name@),
    {
        let mut v: Vec<String> = Vec::new();
        v.push(String::from_str("--json"));
        v.push(String::from_str("backup"));
        v.push(String::from_str("--files-from"));
        v.push(Configuration::include_file(base, name));
        v.push(String::from_str("--exclude-file"));
        v.push(Configuration::exclude_file(base, name));
        v.push(String::from_str("--repository-file"));
        v.push(Configuration::repo_file(base, name));
        v.push(String::from_str("--password-file"));
        v.push(Configuration::password_file(base, name));
        proof {
            assert(v.deep_view() =~= spec_backup_args(base@, name@));
        }
        v
    }

    /// The argument list that queries the statistics of `name`.
    pub fn stats_args(base: &str, name: &str) -> (r: Vec<String>)
        ensures
            r.deep_view() == spec_stats_args(base@, name@),
    {
        let mut v: Vec<String> = Vec::new();
        v.push(String::from_str("--json"));
        v.push(String::from_str("stats"));
        v.push(String::from_str("--repository-file"));
        v.push(Configuration::repo_file(base, name));
        v.push(String::from_str("--password-file"));
        v.push(Configuration::password_file(base, name));
        proof {
            assert(v.deep_view() =~= spec_stats_args(base@, name@));
        }
        v
    }

    /// Settle a creation after the initialization attempt: on success
    /// the store keeps the just-written definition; on failure the
    /// definition's directory is rolled back and the trimmed failure
    /// detail is reported as a `RepoInit` error.
    pub fn settle_create(store: &mut Configuration, name: &str, init_error: Option<String>) -> (r:
        Result<(), ServerError>)
        requires
            init_error is Some ==> contains_name(old(store)@, name@),
        ensures
            init_error is None ==> r is Ok && final(store)@ == old(store)@,
            init_error matches Some(detail) ==> final(store)@ == spec_remove(old(store)@, name@)
                && (r matches Err(ServerError::RepoInit(d)) && d@ == spec_trim(detail@)),
    {
        match init_error {
            None => Ok(()),
            Some(detail) => {
                store.remove(name);
                let d = trimmed(detail.as_str()).to_owned();
                Err(ServerError::RepoInit(d))
            },
        }
    }

    /// The whole creation saga, over the store model: the definition is
    /// durably written first; a write failure is reported as a
    /// `Configuration` error with nothing recorded; an initialization
    /// failure rolls the write back and is reported as a `RepoInit`
    /// error; otherwise the backup is created and ready.
    pub fn create_backup(
        store: &mut Configuration,
        backup: &Backup,
        write_error: Option<String>,
        init_error: Option<String>,
    ) -> (r: Result<(), ServerError>)
        requires
            name_wf(backup.name@),
            keys_wf(*backup),
        ensures
            write_error matches Some(d) ==> final(store)@ == old(store)@ && (r matches Err(
                ServerError::Configuration(e),
            ) && e@ == d@),
            write_error is None ==> match init_error {
                None => r is Ok && final(store)@ == spec_create(
                    old(store)@,
                    backup.name@,
                    spec_backup_files(*backup),
                ),
                Some(d) => final(store)@ == spec_remove(
                    spec_create(old(store)@, backup.name@, spec_backup_files(*backup)),
                    backup.name@,
                ) && (r matches Err(ServerError::RepoInit(e)) && e@ == spec_trim(d@)),
            },
    {
        if let Some(detail) = write_error {
            return Err(ServerError::Configuration(detail));
        }
        store.create(backup);
        proof {
            lemma_create_contains(old(store)@, backup.name@, spec_backup_files(*backup));
        }
        Self::settle_create(store, backup.name.as_str(), init_error)
    }

    /// Frame the statistics run of `name`: the engine must emit exactly
    /// one line; more or fewer is a contract violation, surfaced as
    /// `None` rather than silently truncated or padded.
    pub fn stats_from_lines(name: String, lines: Vec<String>) -> (r: Option<(String, String)>)
        ensures
            match r {
                Some(p) => lines.deep_view().len() == 1 && p.0@ == name@ && p.1@
                    == lines.deep_view()[0],
                None => lines.deep_view().len() != 1,
            },
    {
        let mut lines = lines;
        if lines.len() == 1 {
            let line = lines.pop().unwrap();
            Some((name, line))
        } else {
            None
        }
    }
}

/// One outgoing wire line: the message text followed by a newline, the
/// only framing the protocol has.
pub fn frame_line(line: &str) -> (r: String)
    ensures
        r@ == line@ + seq!['\n'],
{
    let mut s = line.to_owned();
    s.append("\n");
    proof {
        reveal_strlit("\n");
        assert("\n"@ =~= seq!['\n']);
        assert(s@ =~= line@ + seq!['\n']);
    }
    s
}

} // verus!
