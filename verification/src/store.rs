//! The configuration store: the persisted form of the backup
//! definitions and the operations on it.
//!
//! On disk every backup owns one directory, named after the backup,
//! holding five independent plain files: `repo` (the serialized
//! repository string), `password` (the raw passphrase), `include` and
//! `exclude` (one record per line), and optionally `environment` (one
//! `KEY=VALUE` pair per line, injected into the engine's process
//! environment). This module models that tree as a sequence of
//! name-to-files entries with unique names; the process around the
//! library mirrors each operation onto the real directory tree, which
//! stays the sole source of truth between operations.

use vstd::prelude::*;
use vstd::string::StrSliceExecFns;
use vstd::string::StringExecFns;

use crate::backup::keys_wf;
use crate::backup::name_wf;
use crate::backup::Backup;
use crate::repository::repo_parse;
use crate::repository::repo_string;
use crate::repository::Repository;
use crate::repository::RepositoryKind;
use crate::text::find_char;
use crate::text::find_char_from;
use crate::text::lemma_find_char_bounds;
use crate::text::parse_lines;
use crate::text::render_lines;
use crate::text::spec_parse_lines;
use crate::text::spec_render_lines;
use crate::text::str_eq;

verus! {

/// The five files of one backup's directory, by content. `environment`
/// is `None` when the optional file is absent.
#[derive(Debug)]
pub struct BackupFiles {
    pub repo: String,
    pub password: String,
    pub includes: String,
    pub excludes: String,
    pub environment: Option<String>,
}

/// The mathematical image of one backup directory.
pub ghost struct FilesView {
    pub repo: Seq<char>,
    pub password: Seq<char>,
    pub includes: Seq<char>,
    pub excludes: Seq<char>,
    pub environment: Option<Seq<char>>,
}

impl View for BackupFiles {
    type V = FilesView;

    open spec fn view(&self) -> FilesView {
        FilesView {
            repo: self.repo@,
            password: self.password@,
            includes: self.includes@,
            excludes: self.excludes@,
            environment: self.environment.deep_view(),
        }
    }
}

/// A store image: the backup directories in enumeration order, each a
/// name with its files.
pub type StoreView = Seq<(Seq<char>, FilesView)>;

/// The first entry index at or after `from` bearing `name`, or `m.len()`
/// if there is none.
pub open spec fn find_name(m: StoreView, name: Seq<char>, from: int) -> int
    recommends
        0 <= from <= m.len(),
    decreases m.len() - from when 0 <= from <= m.len()
{
    if from >= m.len() {
        m.len() as int
    } else if m[from].0 == name {
        from
    } else {
        find_name(m, name, from + 1)
    }
}

pub proof fn lemma_find_name_at(m: StoreView, name: Seq<char>, from: int, found: int)
    requires
        0 <= from <= found <= m.len(),
        forall|k: int| from <= k < found ==> m[k].0 != name,
        found < m.len() ==> m[found].0 == name,
    ensures
        find_name(m, name, from) == found,
    decreases found - from,
{
    if from < found {
        lemma_find_name_at(m, name, from + 1, found);
    }
}

pub proof fn lemma_find_name_bounds(m: StoreView, name: Seq<char>, from: int)
    requires
        0 <= from <= m.len(),
    ensures
        from <= find_name(m, name, from) <= m.len(),
        forall|k: int| from <= k < find_name(m, name, from) ==> m[k].0 != name,
        find_name(m, name, from) < m.len() ==> m[find_name(m, name, from)].0 == name,
    decreases m.len() - from,
{
    if from < m.len() && m[from].0 != name {
        lemma_find_name_bounds(m, name, from + 1);
    }
}

/// Whether a backup of this name exists in the store.
pub open spec fn contains_name(m: StoreView, name: Seq<char>) -> bool {
    find_name(m, name, 0) < m.len()
}

/// The files of the (first) entry bearing `name`.
pub open spec fn files_of(m: StoreView, name: Seq<char>) -> FilesView {
    m[find_name(m, name, 0)].1
}

/// The store after writing `name`'s directory: the existing entry is
/// replaced in place, or a new entry is appended.
pub open spec fn spec_create(m: StoreView, name: Seq<char>, files: FilesView) -> StoreView {
    let i = find_name(m, name, 0);
    if 0 <= i && i < m.len() {
        m.update(i, (name, files))
    } else {
        m.push((name, files))
    }
}

/// The store after deleting `name`'s directory.
pub open spec fn spec_remove(m: StoreView, name: Seq<char>) -> StoreView {
    let i = find_name(m, name, 0);
    if 0 <= i && i < m.len() {
        m.remove(i)
    } else {
        m
    }
}

/// The names of the stored backups, in enumeration order.
pub open spec fn store_names(m: StoreView) -> Seq<Seq<char>> {
    m.map_values(|e: (Seq<char>, FilesView)| e.0)
}

/// The environment-file content of `KEY=VALUE` lines.
pub open spec fn env_content(id: Seq<char>, secret: Seq<char>) -> Seq<char> {
    "B2_ACCOUNT_ID="@ + id + seq!['\n'] + "B2_ACCOUNT_KEY="@ + secret + seq!['\n']
}

/// One parsed `KEY=VALUE` line, split at its first `=`.
pub open spec fn env_pair_of_line(line: Seq<char>) -> (Seq<char>, Seq<char>) {
    let i = find_char(line, '=', 0);
    if 0 <= i && i < line.len() {
        (line.subrange(0, i), line.subrange(i + 1, line.len() as int))
    } else {
        (line, Seq::<char>::empty())
    }
}

/// The pairs of an environment file.
pub open spec fn spec_env_pairs(content: Seq<char>) -> Seq<(Seq<char>, Seq<char>)> {
    spec_parse_lines(content).map_values(|l: Seq<char>| env_pair_of_line(l))
}

/// Every line of an environment file must carry a `=`; one without is a
/// fatal configuration error.
pub open spec fn env_lines_wf(content: Seq<char>) -> bool {
    forall|k: int|
        0 <= k < spec_parse_lines(content).len() ==> (#[trigger] spec_parse_lines(
            content,
        )[k]).contains('=')
}

/// A directory whose files the daemon can read back: the repository
/// string parses, and the environment file, if present, splits into
/// pairs.
pub open spec fn files_wf(f: FilesView) -> bool {
    repo_parse(f.repo) is Some && match f.environment {
        Some(c) => env_lines_wf(c),
        None => true,
    }
}

/// A healthy store: backup names are unique and every directory reads
/// back.
pub open spec fn store_wf(m: StoreView) -> bool {
    names_unique(m) && (forall|i: int| 0 <= i < m.len() ==> files_wf((#[trigger] m[i]).1))
}

/// Unique names in the store.
pub open spec fn names_unique(m: StoreView) -> bool {
    forall|i: int, j: int| 0 <= i < j < m.len() ==> (#[trigger] m[i]).0 != (#[trigger] m[j]).0
}

/// The directory content a definition persists to: the serialized
/// repository, the raw passphrase, one include path and one exclude
/// pattern per line, and, for B2 only, the credential environment file.
pub open spec fn spec_backup_files(b: Backup) -> FilesView {
    FilesView {
        repo: repo_string(b.repository.kind, b.repository.identifier@, b.repository.path@),
        password: b.password@,
        includes: spec_render_lines(b.includes.deep_view()),
        excludes: spec_render_lines(b.excludes.deep_view()),
        environment: if b.repository.kind == RepositoryKind::B2 {
            Some(env_content(b.key_id.unwrap()@, b.key_secret.unwrap()@))
        } else {
            None
        },
    }
}

/// Render the files a definition persists to. The process around the
/// library writes exactly these contents under the backup's directory.
pub fn backup_files(b: &Backup) -> (f: BackupFiles)
    requires
        keys_wf(*b),
    ensures
        f@ == spec_backup_files(*b),
{
    let environment = match b.repository.kind {
        RepositoryKind::B2 => {
            let mut e = String::from_str("B2_ACCOUNT_ID=");
            e.append(b.key_id.as_ref().unwrap().as_str());
            e.append("\n");
            e.append("B2_ACCOUNT_KEY=");
            e.append(b.key_secret.as_ref().unwrap().as_str());
            e.append("\n");
            proof {
                reveal_strlit("\n");
                assert("\n"@ =~= seq!['\n']);
                assert(e@ =~= env_content(b.key_id.unwrap()@, b.key_secret.unwrap()@));
            }
            Some(e)
        },
        _ => None,
    };
    let f = BackupFiles {
        repo: b.repository.to_string(),
        password: b.password.clone(),
        includes: render_lines(&b.includes),
        excludes: render_lines(&b.excludes),
        environment,
    };
    f
}

/// The configuration error a store operation reports: a missing backup,
/// or a filesystem failure with its detail (raised only by the process
/// around the library, which owns the real directory tree).
#[derive(Debug, PartialEq)]
pub enum ConfigError {
    NotFound,
    IO(String),
}

/// The configuration store model. The real store is a directory tree;
/// every operation here says what that tree holds afterwards.
pub struct Configuration {
    entries: Vec<(String, BackupFiles)>,
}

impl View for Configuration {
    type V = StoreView;

    closed spec fn view(&self) -> StoreView {
        self.entries@.map_values(|e: (String, BackupFiles)| (e.0@, e.1@))
    }
}

/// Whether a read-back definition matches a directory: same name, the
/// parsed repository, the raw passphrase, the per-line records, and no
/// plaintext credentials (those live only in the opaque environment
/// file).
pub open spec fn read_matches(f: FilesView, name: Seq<char>, b: Backup) -> bool {
    &&& b.name@ == name
    &&& repo_parse(f.repo) == Some(
        (b.repository.kind, b.repository.identifier@, b.repository.path@),
    )
    &&& b.password@ == f.password
    &&& b.includes.deep_view() == spec_parse_lines(f.includes)
    &&& b.excludes.deep_view() == spec_parse_lines(f.excludes)
    &&& b.key_id is None
    &&& b.key_secret is None
}

impl Configuration {
    /// An empty store.
    pub fn new() -> (c: Configuration)
        ensures
            c@ == Seq::<(Seq<char>, FilesView)>::empty(),
    {
        let c = Configuration { entries: Vec::new() };
        proof {
            assert(c@ =~= Seq::<(Seq<char>, FilesView)>::empty());
        }
        c
    }

    /// The index of `name`'s entry, or the entry count if there is none.
    fn find_entry(&self, name: &str) -> (r: usize)
        ensures
            r as int == find_name(self@, name@, 0),
            r <= self.entries.len(),
            self@.len() == self.entries.len(),
    {
        let mut i: usize = 0;
        while i < self.entries.len()
            invariant
                i <= self.entries.len(),
                self@.len() == self.entries.len(),
                forall|k: int| 0 <= k < i ==> (#[trigger] self@[k]).0 != name@,
            decreases self.entries.len() - i,
        {
            if str_eq(self.entries[i].0.as_str(), name) {
                proof {
                    assert(self@[i as int].0 == name@);
                    lemma_find_name_at(self@, name@, 0, i as int);
                }
                return i;
            }
            proof {
                assert(self@[i as int].0 == self.entries@[i as int].0@);
            }
            i = i + 1;
        }
        proof {
            lemma_find_name_at(self@, name@, 0, self@.len() as int);
        }
        self.entries.len()
    }

    /// Create or replace the backup's directory: the five files are
    /// written afresh; overwriting an existing name replaces its files.
    pub fn create(&mut self, backup: &Backup)
        requires
            name_wf(backup.name@),
            keys_wf(*backup),
        ensures
            final(self)@ == spec_create(old(self)@, backup.name@, spec_backup_files(*backup)),
    {
        let files = backup_files(backup);
        self.insert_directory(backup.name.clone(), files);
    }

    /// Mirror one backup directory into the store, exactly as its files
    /// stand — the way a scan of the base path loads what is on disk.
    pub fn insert_directory(&mut self, name: String, files: BackupFiles)
        ensures
            final(self)@ == spec_create(old(self)@, name@, files@),
    {
        let ghost files_view = files@;
        let idx = self.find_entry(name.as_str());
        if idx < self.entries.len() {
            self.entries.remove(idx);
            self.entries.insert(idx, (name, files));
            proof {
                assert(self@ =~= old(self)@.update(idx as int, (name@, files_view)));
            }
        } else {
            self.entries.push((name, files));
            proof {
                assert(self@ =~= old(self)@.push((name@, files_view)));
            }
        }
    }

    /// Decide whether the store is healthy: no name repeats and every
    /// directory reads back. A process that loaded directories of
    /// unknown provenance checks this before reading definitions out.
    pub fn is_wf(&self) -> (r: bool)
        ensures
            r == store_wf(self@),
    {
        let n = self.entries.len();
        let mut i: usize = 0;
        while i < n
            invariant
                i <= n,
                n == self.entries.len(),
                self@.len() == n,
                forall|a: int, b: int|
                    0 <= a < b < n && a < i ==> (#[trigger] self@[a]).0 != (#[trigger] self@[b]).0,
            decreases n - i,
        {
            let mut j: usize = i + 1;
            while j < n
                invariant
                    i < j <= n,
                    n == self.entries.len(),
                    self@.len() == n,
                    forall|b: int| i < b < j ==> (#[trigger] self@[b]).0 != self@[i as int].0,
                decreases n - j,
            {
                if str_eq(self.entries[i].0.as_str(), self.entries[j].0.as_str()) {
                    proof {
                        assert(self@[i as int].0 == self@[j as int].0);
                    }
                    return false;
                }
                proof {
                    assert(self@[j as int].0 == self.entries@[j as int].0@);
                    assert(self@[i as int].0 == self.entries@[i as int].0@);
                }
                j = j + 1;
            }
            i = i + 1;
        }
        let mut i: usize = 0;
        while i < n
            invariant
                i <= n,
                n == self.entries.len(),
                self@.len() == n,
                names_unique(self@),
                forall|k: int| 0 <= k < i ==> files_wf((#[trigger] self@[k]).1),
            decreases n - i,
        {
            proof {
                assert(self@[i as int].1 == self.entries@[i as int].1@);
            }
            let files = &self.entries[i].1;
            if Repository::parse(files.repo.as_str()).is_none() {
                return false;
            }
            match &files.environment {
                Some(content) => {
                    if parse_env_lines(content.as_str()).is_none() {
                        return false;
                    }
                },
                None => {},
            }
            i = i + 1;
        }
        true
    }

    /// Delete the backup's directory. Used only as rollback after a
    /// failed repository initialization, so the directory must exist.
    pub fn remove(&mut self, name: &str)
        requires
            contains_name(old(self)@, name@),
        ensures
            final(self)@ == spec_remove(old(self)@, name@),
    {
        let idx = self.find_entry(name);
        self.entries.remove(idx);
        proof {
            assert(self@ =~= old(self)@.remove(find_name(old(self)@, name@, 0)));
        }
    }

    /// Reconstruct the definition persisted under `name`, from its
    /// directory alone; credentials are not persisted in plaintext this
    /// way and read back as `None`.
    pub fn backup_with_name(&self, name: &str) -> (r: Result<Backup, ConfigError>)
        requires
            store_wf(self@),
        ensures
            match r {
                Ok(b) => contains_name(self@, name@) && read_matches(
                    files_of(self@, name@),
                    name@,
                    b,
                ),
                Err(e) => !contains_name(self@, name@) && e == ConfigError::NotFound,
            },
    {
        let idx = self.find_entry(name);
        if idx == self.entries.len() {
            return Err(ConfigError::NotFound);
        }
        proof {
            assert(files_wf(self@[idx as int].1));
            assert(self@[idx as int].1 == self.entries@[idx as int].1@);
        }
        let files = &self.entries[idx].1;
        let repository = Repository::from(files.repo.as_str());
        let b = Backup {
            name: name.to_owned(),
            repository,
            key_id: None,
            key_secret: None,
            password: files.password.clone(),
            includes: parse_lines(files.includes.as_str()),
            excludes: parse_lines(files.excludes.as_str()),
        };
        Ok(b)
    }

    /// The stored backup names, in enumeration order; callers must not
    /// depend on any particular order.
    pub fn list_names(&self) -> (r: Vec<String>)
        ensures
            r.deep_view() == store_names(self@),
    {
        let mut r: Vec<String> = Vec::new();
        let mut i: usize = 0;
        while i < self.entries.len()
            invariant
                i <= self.entries.len(),
                self@.len() == self.entries.len(),
                r.deep_view().len() == i,
                forall|k: int| 0 <= k < i ==> r.deep_view()[k] == store_names(self@)[k],
            decreases self.entries.len() - i,
        {
            let ghost pre = r.deep_view();
            r.push(self.entries[i].0.clone());
            proof {
                assert(r.deep_view() =~= pre.push(self.entries@[i as int].0@));
                assert(store_names(self@)[i as int] == self@[i as int].0);
            }
            i = i + 1;
        }
        proof {
            assert(r.deep_view() =~= store_names(self@));
        }
        r
    }

    /// The environment mapping to overlay on the engine's process
    /// environment: the parsed pairs of the backup's environment file,
    /// or an empty mapping when the backup or its environment file is
    /// absent (an expected case, not an error).
    pub fn environment_for_name(&self, name: &str) -> (r: Vec<(String, String)>)
        requires
            store_wf(self@),
        ensures
            r.deep_view() == spec_environment_of(self@, name@),
    {
        let idx = self.find_entry(name);
        if idx == self.entries.len() {
            let empty: Vec<(String, String)> = Vec::new();
            proof {
                assert(empty.deep_view() =~= Seq::<(Seq<char>, Seq<char>)>::empty());
                assert(Seq::<(Seq<char>, Seq<char>)>::empty() =~= spec_environment_of(
                    self@,
                    name@,
                ));
            }
            return empty;
        }
        proof {
            assert(files_wf(self@[idx as int].1));
            assert(self@[idx as int].1 == self.entries@[idx as int].1@);
        }
        let content = match &self.entries[idx].1.environment {
            Some(c) => c,
            None => {
                let empty: Vec<(String, String)> = Vec::new();
                proof {
                    assert(empty.deep_view() =~= Seq::<(Seq<char>, Seq<char>)>::empty());
                    assert(Seq::<(Seq<char>, Seq<char>)>::empty() =~= spec_environment_of(
                        self@,
                        name@,
                    ));
                }
                return empty;
            },
        };
        let r = parse_env_lines(content.as_str()).unwrap();
        proof {
            assert(r.deep_view() =~= spec_environment_of(self@, name@));
        }
        r
    }
}

/// Parse the text of an environment file into its `KEY=VALUE` pairs,
/// splitting each record at its first `=`. A record without a `=` makes
/// the file malformed, a fatal configuration error reported as `None`.
pub fn parse_env_lines(content: &str) -> (r: Option<Vec<(String, String)>>)
    ensures
        match r {
            Some(v) => env_lines_wf(content@) && v.deep_view() == spec_env_pairs(content@),
            None => !env_lines_wf(content@),
        },
{
    let lines = parse_lines(content);
    let ghost spec_lines = spec_parse_lines(content@);
    let mut r: Vec<(String, String)> = Vec::new();
    let mut i: usize = 0;
    while i < lines.len()
        invariant
            i <= lines.len(),
            lines.deep_view() == spec_lines,
            lines.deep_view().len() == lines.len(),
            spec_lines == spec_parse_lines(content@),
            r.deep_view().len() == i,
            forall|k: int| 0 <= k < i ==> (#[trigger] spec_lines[k]).contains('='),
            forall|k: int| 0 <= k < i ==> r.deep_view()[k] == env_pair_of_line(spec_lines[k]),
        decreases lines.len() - i,
    {
        let line = &lines[i];
        proof {
            assert(lines.deep_view()[i as int] == line@);
            lemma_find_char_bounds(line@, '=', 0);
        }
        let line_str = line.as_str();
        let eq = find_char_from(line_str, '=', 0);
        let n = line_str.unicode_len();
        if eq == n {
            proof {
                assert(!spec_lines[i as int].contains('=')) by {
                    if spec_lines[i as int].contains('=') {
                        let w = choose|w: int| 0 <= w < line@.len() && line@[w] == '=';
                        assert(line@[w] != '=');
                    }
                }
            }
            return None;
        }
        let key = line_str.substring_char(0, eq).to_owned();
        let value = line_str.substring_char(eq + 1, n).to_owned();
        let ghost pre = r.deep_view();
        r.push((key, value));
        proof {
            assert(r.deep_view() =~= pre.push((key@, value@)));
        }
        i = i + 1;
    }
    proof {
        assert(r.deep_view() =~= spec_env_pairs(content@));
    }
    Some(r)
}

/// The environment mapping read for `name`: the parsed pairs of its
/// environment file, or empty when the backup or the file is absent.
pub open spec fn spec_environment_of(m: StoreView, name: Seq<char>) -> Seq<(Seq<char>, Seq<char>)> {
    if !contains_name(m, name) {
        Seq::<(Seq<char>, Seq<char>)>::empty()
    } else {
        match files_of(m, name).environment {
            Some(c) => spec_env_pairs(c),
            None => Seq::<(Seq<char>, Seq<char>)>::empty(),
        }
    }
}

/// The path of one file inside one backup's directory.
pub open spec fn spec_config_file(base: Seq<char>, name: Seq<char>, filename: Seq<char>) -> Seq<
    char,
> {
    base + seq!['/'] + name + seq!['/'] + filename
}

impl Configuration {
    /// The store's directory tree under a configuration root:
    /// `<root>/duplikatd/backups`. The root itself is
    /// privilege-sensitive (the system root for an administrator
    /// process, the user's configuration directory otherwise) and is
    /// chosen by the process around the library.
    pub fn base_config_path(root: &str) -> (r: String)
        ensures
            r@ == root@ + "/duplikatd/backups"@,
    {
        let mut s = root.to_owned();
        s.append("/duplikatd/backups");
        s
    }

    /// The path of one of a backup's files under the base path.
    fn config_file(base: &str, name: &str, filename: &str) -> (r: String)
        ensures
            r@ == spec_config_file(base@, name@, filename@),
    {
        let mut s = base.to_owned();
        s.append("/");
        s.append(name);
        s.append("/");
        s.append(filename);
        proof {
            reveal_strlit("/");
            assert("/"@ =~= seq!['/']);
            assert(s@ =~= spec_config_file(base@, name@, filename@));
        }
        s
    }

    /// The path of the serialized-repository file.
    pub fn repo_file(base: &str, name: &str) -> (r: String)
        ensures
            r@ == spec_config_file(base@, name@, "repo"@),
    {
        Self::config_file(base, name, "repo")
    }

    /// The path of the passphrase file.
    pub fn password_file(base: &str, name: &str) -> (r: String)
        ensures
            r@ == spec_config_file(base@, name@, "password"@),
    {
        Self::config_file(base, name, "password")
    }

    /// The path of the include-paths file.
    pub fn include_file(base: &str, name: &str) -> (r: String)
        ensures
            r@ == spec_config_file(base@, name@, "include"@),
    {
        Self::config_file(base, name, "include")
    }

    /// The path of the exclude-patterns file.
    pub fn exclude_file(base: &str, name: &str) -> (r: String)
        ensures
            r@ == spec_config_file(base@, name@, "exclude"@),
    {
        Self::config_file(base, name, "exclude")
    }

    /// The path of the optional environment file.
    pub fn environment_file(base: &str, name: &str) -> (r: String)
        ensures
            r@ == spec_config_file(base@, name@, "environment"@),
    {
        Self::config_file(base, name, "environment")
    }
}

/// Creation always records the name: the store holds it afterwards.
pub proof fn lemma_create_contains(m: StoreView, name: Seq<char>, files: FilesView)
    ensures
        contains_name(spec_create(m, name, files), name),
{
    lemma_find_name_bounds(m, name, 0);
    let i = find_name(m, name, 0);
    let m1 = spec_create(m, name, files);
    lemma_find_name_bounds(m1, name, 0);
    if find_name(m1, name, 0) == m1.len() {
        if i < m.len() {
            assert(m1[i].0 == name);
        } else {
            assert(m1[m.len() as int].0 == name);
        }
    }
}

/// Idempotence of creation: writing the same definition twice leaves the
/// store exactly as writing it once does — the files are fully
/// overwritten, nothing is duplicated.
pub proof fn lemma_create_idempotent(m: StoreView, name: Seq<char>, files: FilesView)
    ensures
        spec_create(spec_create(m, name, files), name, files) == spec_create(m, name, files),
{
    lemma_find_name_bounds(m, name, 0);
    let i = find_name(m, name, 0);
    let m1 = spec_create(m, name, files);
    if i < m.len() {
        assert forall|k: int| 0 <= k < i implies m1[k].0 != name by {
            assert(m1[k] == m[k]);
        }
        lemma_find_name_at(m1, name, 0, i);
        assert(m1.update(i, (name, files)) =~= m1);
    } else {
        assert forall|k: int| 0 <= k < m.len() implies m1[k].0 != name by {
            assert(m1[k] == m[k]);
        }
        lemma_find_name_at(m1, name, 0, m.len() as int);
        assert(m1.update(m.len() as int, (name, files)) =~= m1);
    }
}

/// Compensating rollback: removing a name that was not stored before its
/// creation returns the store to exactly its prior state.
pub proof fn lemma_rollback_restores(m: StoreView, name: Seq<char>, files: FilesView)
    requires
        !contains_name(m, name),
    ensures
        spec_remove(spec_create(m, name, files), name) == m,
{
    lemma_find_name_bounds(m, name, 0);
    let m1 = spec_create(m, name, files);
    assert forall|k: int| 0 <= k < m.len() implies m1[k].0 != name by {
        assert(m1[k] == m[k]);
    }
    lemma_find_name_at(m1, name, 0, m.len() as int);
    assert(m1.remove(m.len() as int) =~= m);
}

/// After removing a name from a store with unique names, the name is
/// gone: no listing will show it.
pub proof fn lemma_remove_removes(m: StoreView, name: Seq<char>)
    requires
        names_unique(m),
    ensures
        !contains_name(spec_remove(m, name), name),
{
    lemma_find_name_bounds(m, name, 0);
    let i = find_name(m, name, 0);
    if i < m.len() {
        let m1 = m.remove(i);
        assert forall|k: int| 0 <= k < m1.len() implies m1[k].0 != name by {
            if k < i {
                assert(m1[k] == m[k]);
            } else {
                assert(m1[k] == m[k + 1]);
                assert(m[i].0 == name);
            }
        }
        lemma_find_name_at(m1, name, 0, m1.len() as int);
    }
}

/// A name is recorded exactly when a listing shows it.
pub proof fn lemma_store_names_contains(m: StoreView, name: Seq<char>)
    ensures
        contains_name(m, name) <==> store_names(m).contains(name),
{
    lemma_find_name_bounds(m, name, 0);
    let i = find_name(m, name, 0);
    if i < m.len() {
        assert(store_names(m)[i] == name);
        assert(store_names(m).contains(name));
    } else {
        if store_names(m).contains(name) {
            let w = choose|w: int| 0 <= w < store_names(m).len() && store_names(m)[w] == name;
            assert(m[w].0 == name);
        }
    }
}

/// Creation keeps the names unique: it replaces in place or appends a
/// name that was absent.
pub proof fn lemma_create_keeps_unique(m: StoreView, name: Seq<char>, files: FilesView)
    requires
        names_unique(m),
    ensures
        names_unique(spec_create(m, name, files)),
{
    lemma_find_name_bounds(m, name, 0);
    let i = find_name(m, name, 0);
    let m1 = spec_create(m, name, files);
    if i < m.len() {
        assert forall|a: int, b: int| 0 <= a < b < m1.len() implies (#[trigger] m1[a]).0 != (
        #[trigger] m1[b]).0 by {
            assert(m1[a].0 == m[a].0);
            assert(m1[b].0 == m[b].0);
        }
    } else {
        assert forall|a: int, b: int| 0 <= a < b < m1.len() implies (#[trigger] m1[a]).0 != (
        #[trigger] m1[b]).0 by {
            if b < m.len() {
                assert(m1[a] == m[a]);
                assert(m1[b] == m[b]);
            } else {
                assert(m1[a] == m[a]);
                assert(m1[b].0 == name);
            }
        }
    }
}

/// The rollback invariant: after a creation is undone — whatever the
/// store held before — no listing shows the name.
pub proof fn lemma_create_rollback_absent(m: StoreView, name: Seq<char>, files: FilesView)
    requires
        names_unique(m),
    ensures
        !contains_name(spec_remove(spec_create(m, name, files), name), name),
        !store_names(spec_remove(spec_create(m, name, files), name)).contains(name),
{
    lemma_create_keeps_unique(m, name, files);
    lemma_remove_removes(spec_create(m, name, files), name);
    lemma_store_names_contains(spec_remove(spec_create(m, name, files), name), name);
}

/// A literal prefix with clean content after it forms a clean line.
proof fn lemma_prefixed_line_clean(lit: Seq<char>, tail: Seq<char>)
    requires
        lit.len() > 0,
        !lit.contains('\n'),
        !crate::text::is_space(lit[0]),
        !crate::text::is_space(lit[lit.len() - 1]),
        crate::text::line_clean(tail),
    ensures
        crate::text::line_clean(lit + tail),
{
    let s = lit + tail;
    assert(!s.contains('\n')) by {
        if s.contains('\n') {
            let k = choose|k: int| 0 <= k < s.len() && s[k] == '\n';
            if k < lit.len() {
                assert(lit[k] == '\n');
                assert(lit.contains('\n'));
            } else {
                assert(tail[k - lit.len()] == '\n');
                assert(tail.contains('\n'));
            }
        }
    }
    if tail.len() == 0 {
        assert(s[s.len() - 1] == lit[lit.len() - 1]);
    } else {
        crate::text::lemma_clean_ends(tail);
        assert(s[s.len() - 1] == tail[tail.len() - 1]);
    }
    assert(s[0] == lit[0]);
    crate::text::lemma_trim_of_clean(s);
}

/// What a well-formed definition's directory reads back to: the
/// directory is readable, its repository string parses to the
/// definition's repository, and the include and exclude records come
/// back line for line — the on-disk round trip of the definition.
pub proof fn lemma_backup_files_read_back(b: Backup)
    requires
        crate::backup::backup_wf(b),
    ensures
        files_wf(spec_backup_files(b)),
        repo_parse(spec_backup_files(b).repo) == Some(
            (b.repository.kind, b.repository.identifier@, b.repository.path@),
        ),
        spec_parse_lines(spec_backup_files(b).includes) == b.includes.deep_view(),
        spec_parse_lines(spec_backup_files(b).excludes) == b.excludes.deep_view(),
        spec_backup_files(b).password == b.password@,
{
    crate::repository::lemma_repo_round_trip(
        b.repository.kind,
        b.repository.identifier@,
        b.repository.path@,
    );
    crate::text::lemma_parse_render_lines(b.includes.deep_view());
    crate::text::lemma_parse_render_lines(b.excludes.deep_view());
    if b.repository.kind == RepositoryKind::B2 {
        let id = b.key_id.unwrap()@;
        let secret = b.key_secret.unwrap()@;
        lemma_env_content_lines(id, secret);
        let l1 = "B2_ACCOUNT_ID="@ + id;
        let l2 = "B2_ACCOUNT_KEY="@ + secret;
        reveal_strlit("B2_ACCOUNT_ID=");
        reveal_strlit("B2_ACCOUNT_KEY=");
        assert(l1.contains('=')) by {
            assert(l1[13] == '=');
        }
        assert(l2.contains('=')) by {
            assert(l2[14] == '=');
        }
        assert(env_lines_wf(env_content(id, secret))) by {
            assert(spec_parse_lines(env_content(id, secret)) =~= seq![l1, l2]);
        }
    }
}

/// The two lines of a B2 environment file, each clean, as the line
/// format reads them back.
proof fn lemma_env_content_lines(id: Seq<char>, secret: Seq<char>)
    requires
        crate::text::line_clean(id),
        crate::text::line_clean(secret),
    ensures
        spec_parse_lines(env_content(id, secret)) == seq![
            "B2_ACCOUNT_ID="@ + id,
            "B2_ACCOUNT_KEY="@ + secret,
        ],
        crate::text::line_clean("B2_ACCOUNT_ID="@ + id),
        crate::text::line_clean("B2_ACCOUNT_KEY="@ + secret),
{
    reveal_strlit("B2_ACCOUNT_ID=");
    reveal_strlit("B2_ACCOUNT_KEY=");
    let l1 = "B2_ACCOUNT_ID="@ + id;
    let l2 = "B2_ACCOUNT_KEY="@ + secret;
    assert(!("B2_ACCOUNT_ID="@).contains('\n')) by {
        if ("B2_ACCOUNT_ID="@).contains('\n') {
            let k = choose|k: int|
                0 <= k < ("B2_ACCOUNT_ID="@).len() && ("B2_ACCOUNT_ID="@)[k] == '\n';
            assert(("B2_ACCOUNT_ID="@)[k] != '\n');
        }
    }
    assert(!("B2_ACCOUNT_KEY="@).contains('\n')) by {
        if ("B2_ACCOUNT_KEY="@).contains('\n') {
            let k = choose|k: int|
                0 <= k < ("B2_ACCOUNT_KEY="@).len() && ("B2_ACCOUNT_KEY="@)[k] == '\n';
            assert(("B2_ACCOUNT_KEY="@)[k] != '\n');
        }
    }
    lemma_prefixed_line_clean("B2_ACCOUNT_ID="@, id);
    lemma_prefixed_line_clean("B2_ACCOUNT_KEY="@, secret);
    assert(seq![l1, l2].drop_first() =~= seq![l2]);
    assert(seq![l2].drop_first() =~= Seq::<Seq<char>>::empty());
    assert(seq![l2].drop_first().len() == 0);
    assert(spec_render_lines(seq![l2].drop_first()) == Seq::<char>::empty());
    assert(spec_render_lines(seq![l2]) =~= l2 + seq!['\n']);
    assert(spec_render_lines(seq![l1, l2]) =~= l1 + seq!['\n'] + (l2 + seq!['\n']));
    assert(env_content(id, secret) =~= spec_render_lines(seq![l1, l2]));
    crate::text::lemma_parse_render_lines(seq![l1, l2]);
    assert(spec_parse_lines(env_content(id, secret)) =~= seq![l1, l2]);
}

/// The environment file of a B2 definition parses to exactly its two
/// credential pairs.
pub proof fn lemma_env_content_pairs(id: Seq<char>, secret: Seq<char>)
    requires
        crate::text::line_clean(id),
        crate::text::line_clean(secret),
    ensures
        spec_env_pairs(env_content(id, secret)) == seq![
            ("B2_ACCOUNT_ID"@, id),
            ("B2_ACCOUNT_KEY"@, secret),
        ],
{
    lemma_env_content_lines(id, secret);
    reveal_strlit("B2_ACCOUNT_ID=");
    reveal_strlit("B2_ACCOUNT_KEY=");
    reveal_strlit("B2_ACCOUNT_ID");
    reveal_strlit("B2_ACCOUNT_KEY");
    let l1 = "B2_ACCOUNT_ID="@ + id;
    let l2 = "B2_ACCOUNT_KEY="@ + secret;
    assert forall|k: int| 0 <= k < 13 implies l1[k] != '=' by {
        assert(l1[k] == ("B2_ACCOUNT_ID="@)[k]);
    }
    assert(l1[13] == '=');
    crate::text::lemma_find_char_at(l1, '=', 0, 13);
    assert(l1.subrange(0, 13) =~= "B2_ACCOUNT_ID"@);
    assert(l1.subrange(14, l1.len() as int) =~= id);
    assert forall|k: int| 0 <= k < 14 implies l2[k] != '=' by {
        assert(l2[k] == ("B2_ACCOUNT_KEY="@)[k]);
    }
    assert(l2[14] == '=');
    crate::text::lemma_find_char_at(l2, '=', 0, 14);
    assert(l2.subrange(0, 14) =~= "B2_ACCOUNT_KEY"@);
    assert(l2.subrange(15, l2.len() as int) =~= secret);
    assert(spec_env_pairs(env_content(id, secret)) =~= seq![
        ("B2_ACCOUNT_ID"@, id),
        ("B2_ACCOUNT_KEY"@, secret),
    ]);
}

/// What the engine's environment overlay holds after a B2 definition is
/// created: exactly the two credential pairs, under the backup's name.
pub proof fn lemma_b2_environment_after_create(m: StoreView, b: Backup)
    requires
        store_wf(m),
        crate::backup::backup_wf(b),
        b.repository.kind == RepositoryKind::B2,
    ensures
        spec_environment_of(spec_create(m, b.name@, spec_backup_files(b)), b.name@) == seq![
            ("B2_ACCOUNT_ID"@, b.key_id.unwrap()@),
            ("B2_ACCOUNT_KEY"@, b.key_secret.unwrap()@),
        ],
{
    lemma_store_read_after_create(m, b);
    lemma_env_content_pairs(b.key_id.unwrap()@, b.key_secret.unwrap()@);
}

/// The store after a successful creation: still healthy, holding the
/// definition's directory under its name, so that reading the name back
/// succeeds and yields the definition's repository, include and exclude
/// records exactly.
pub proof fn lemma_store_read_after_create(m: StoreView, b: Backup)
    requires
        store_wf(m),
        crate::backup::backup_wf(b),
    ensures
        store_wf(spec_create(m, b.name@, spec_backup_files(b))),
        contains_name(spec_create(m, b.name@, spec_backup_files(b)), b.name@),
        files_of(spec_create(m, b.name@, spec_backup_files(b)), b.name@) == spec_backup_files(b),
{
    lemma_backup_files_read_back(b);
    lemma_find_name_bounds(m, b.name@, 0);
    let name = b.name@;
    let files = spec_backup_files(b);
    let i = find_name(m, name, 0);
    let m1 = spec_create(m, name, files);
    if i < m.len() {
        assert forall|k: int| 0 <= k < i implies m1[k].0 != name by {
            assert(m1[k] == m[k]);
        }
        lemma_find_name_at(m1, name, 0, i);
    } else {
        assert forall|k: int| 0 <= k < m.len() implies m1[k].0 != name by {
            assert(m1[k] == m[k]);
        }
        lemma_find_name_at(m1, name, 0, m.len() as int);
    }
}

} // verus!
