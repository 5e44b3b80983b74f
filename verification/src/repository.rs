//! Repository descriptors and their single-line connection-string format.
//!
//! A repository identifies a storage backend. `Local` repositories
//! serialize to just their path (which starts with `/`); every other kind
//! serializes to `<kind>:<identifier>:<path>`. Parsing is the exact
//! inverse: a string starting with `/` is always `Local`; otherwise the
//! string must split on `:` into exactly three fields whose first names a
//! known kind. Malformed strings are a fatal configuration error, so the
//! panicking entry point `Repository::from` demands a well-formed string,
//! while `Repository::parse` reports failure as `None`.

use vstd::prelude::*;
use vstd::string::StrSliceExecFns;
use vstd::string::StringExecFns;

use crate::text::find_char;
use crate::text::find_char_from;
use crate::text::lemma_find_char_at;
use crate::text::lemma_find_char_bounds;
use crate::text::str_eq;

verus! {

/// The closed set of storage backends a repository can live on.
#[derive(Clone, Copy, Debug, PartialEq, Eq, Structural)]
pub enum RepositoryKind {
    Local,
    SFTP,
    B2,
}

/// The serialized (lowercase) name of a repository kind, as it appears in
/// connection strings and in protocol messages.
pub open spec fn kind_name(kind: RepositoryKind) -> Seq<char> {
    match kind {
        RepositoryKind::Local => "local"@,
        RepositoryKind::SFTP => "sftp"@,
        RepositoryKind::B2 => "b2"@,
    }
}

/// The kind whose serialized name is `s`, if any.
pub open spec fn kind_of_name(s: Seq<char>) -> Option<RepositoryKind> {
    if s == kind_name(RepositoryKind::Local) {
        Some(RepositoryKind::Local)
    } else if s == kind_name(RepositoryKind::SFTP) {
        Some(RepositoryKind::SFTP)
    } else if s == kind_name(RepositoryKind::B2) {
        Some(RepositoryKind::B2)
    } else {
        None
    }
}

impl RepositoryKind {
    /// The user-facing name of this kind.
    pub fn to_human_readable(&self) -> (r: &str)
        ensures
            r@ == match *self {
                RepositoryKind::Local => "Local Directory"@,
                RepositoryKind::SFTP => "SFTP"@,
                RepositoryKind::B2 => "Backblaze B2"@,
            },
    {
        match self {
            RepositoryKind::Local => "Local Directory",
            RepositoryKind::SFTP => "SFTP",
            RepositoryKind::B2 => "Backblaze B2",
        }
    }

    /// The serialized name of this kind.
    pub fn to_string(&self) -> (r: String)
        ensures
            r@ == kind_name(*self),
    {
        match self {
            RepositoryKind::Local => String::from_str("local"),
            RepositoryKind::SFTP => String::from_str("sftp"),
            RepositoryKind::B2 => String::from_str("b2"),
        }
    }

    /// The kind serialized as `s`, or `None` for an unknown name.
    pub fn from_name(s: &str) -> (r: Option<RepositoryKind>)
        ensures
            r == kind_of_name(s@),
    {
        if str_eq(s, "local") {
            Some(RepositoryKind::Local)
        } else if str_eq(s, "sftp") {
            Some(RepositoryKind::SFTP)
        } else if str_eq(s, "b2") {
            Some(RepositoryKind::B2)
        } else {
            None
        }
    }
}

/// A storage destination: a backend kind, a backend-specific identifier
/// (empty for local repositories), and a path within the backend.
#[derive(Debug)]
pub struct Repository {
    pub kind: RepositoryKind,
    pub identifier: String,
    pub path: String,
}

impl PartialEq for Repository {
    fn eq(&self, other: &Repository) -> (r: bool) {
        self.kind == other.kind && self.identifier == other.identifier && self.path
            == other.path
    }
}

impl vstd::std_specs::cmp::PartialEqSpecImpl for Repository {
    open spec fn obeys_eq_spec() -> bool {
        true
    }

    open spec fn eq_spec(&self, other: &Repository) -> bool {
        self.kind == other.kind && self.identifier@ == other.identifier@ && self.path@
            == other.path@
    }
}

/// The serialized connection string for the given fields.
pub open spec fn repo_string(kind: RepositoryKind, identifier: Seq<char>, path: Seq<char>) -> Seq<
    char,
> {
    if kind == RepositoryKind::Local {
        path
    } else {
        kind_name(kind) + seq![':'] + identifier + seq![':'] + path
    }
}

/// Whether `s` takes the local form: a leading `/`.
pub open spec fn is_local_string(s: Seq<char>) -> bool {
    s.len() > 0 && s[0] == '/'
}

/// The parse of a connection string: kind, identifier and path, or `None`
/// for a malformed string (wrong field count or unknown kind).
pub open spec fn repo_parse(s: Seq<char>) -> Option<(RepositoryKind, Seq<char>, Seq<char>)> {
    if is_local_string(s) {
        Some((RepositoryKind::Local, Seq::<char>::empty(), s))
    } else {
        let i = find_char(s, ':', 0);
        let j = find_char(s, ':', i + 1);
        if i < s.len() && j < s.len() && find_char(s, ':', j + 1) == s.len() {
            match kind_of_name(s.subrange(0, i)) {
                Some(kind) => Some((kind, s.subrange(i + 1, j), s.subrange(j + 1, s.len() as int))),
                None => None,
            }
        } else {
            None
        }
    }
}

impl Repository {
    /// The single-line connection string of this repository.
    pub fn to_string(&self) -> (r: String)
        ensures
            r@ == repo_string(self.kind, self.identifier@, self.path@),
    {
        match self.kind {
            RepositoryKind::Local => self.path.clone(),
            _ => {
                let mut s = self.kind.to_string();
                s.append(":");
                s.append(self.identifier.as_str());
                s.append(":");
                s.append(self.path.as_str());
                proof {
                    reveal_strlit(":");
                    assert(":"@ =~= seq![':']);
                    assert(s@ =~= repo_string(self.kind, self.identifier@, self.path@));
                }
                s
            },
        }
    }

    /// Parse a connection string, reporting a malformed one as `None`.
    pub fn parse(s: &str) -> (r: Option<Repository>)
        ensures
            match r {
                Some(rep) => repo_parse(s@) == Some((rep.kind, rep.identifier@, rep.path@)),
                None => repo_parse(s@) is None,
            },
    {
        let n = s.unicode_len();
        if n > 0 && s.get_char(0) == '/' {
            return Some(
                Repository { kind: RepositoryKind::Local, identifier: String::new(), path: s.to_owned() },
            );
        }
        let i = find_char_from(s, ':', 0);
        if i == n {
            return None;
        }
        let j = find_char_from(s, ':', i + 1);
        if j == n {
            return None;
        }
        let k = find_char_from(s, ':', j + 1);
        if k < n {
            return None;
        }
        let kind_part = s.substring_char(0, i);
        match RepositoryKind::from_name(kind_part) {
            Some(kind) => {
                let identifier = s.substring_char(i + 1, j).to_owned();
                let path = s.substring_char(j + 1, n).to_owned();
                Some(Repository { kind, identifier, path })
            },
            None => None,
        }
    }

    /// Build a repository from a connection string known to be
    /// well-formed; malformed strings are a fatal configuration error and
    /// are excluded by the precondition.
    pub fn from(s: &str) -> (r: Repository)
        requires
            repo_parse(s@) is Some,
        ensures
            repo_parse(s@) == Some((r.kind, r.identifier@, r.path@)),
    {
        Repository::parse(s).unwrap()
    }
}

/// Whether the fields describe a repository whose connection string
/// parses back to the same fields: a local repository needs an absolute
/// path and an empty identifier, every other kind a colon-free identifier
/// and path.
pub open spec fn repo_fields_wf(kind: RepositoryKind, identifier: Seq<char>, path: Seq<char>) -> bool {
    match kind {
        RepositoryKind::Local => path.len() > 0 && path[0] == '/' && identifier.len() == 0,
        _ => !identifier.contains(':') && !path.contains(':'),
    }
}

/// Round trip: a well-formed repository survives serialization and
/// parsing unchanged, for every kind.
pub proof fn lemma_repo_round_trip(kind: RepositoryKind, identifier: Seq<char>, path: Seq<char>)
    requires
        repo_fields_wf(kind, identifier, path),
    ensures
        repo_parse(repo_string(kind, identifier, path)) == Some((kind, identifier, path)),
{
    reveal_strlit("local");
    reveal_strlit("sftp");
    reveal_strlit("b2");
    let s = repo_string(kind, identifier, path);
    match kind {
        RepositoryKind::Local => {
            assert(identifier =~= Seq::<char>::empty());
        },
        _ => {
            let name = kind_name(kind);
            let i = name.len() as int;
            let j = i + 1 + identifier.len();
            assert(s[0] == name[0]);
            assert(!is_local_string(s));
            assert forall|k: int| 0 <= k < i implies s[k] != ':' by {
                assert(s[k] == name[k]);
            }
            assert(s[i] == ':');
            lemma_find_char_at(s, ':', 0, i);
            assert forall|k: int| i + 1 <= k < j implies s[k] != ':' by {
                assert(s[k] == identifier[k - (i + 1)]);
            }
            assert(s[j] == ':');
            lemma_find_char_at(s, ':', i + 1, j);
            assert forall|k: int| j + 1 <= k < s.len() implies s[k] != ':' by {
                assert(s[k] == path[k - (j + 1)]);
            }
            lemma_find_char_at(s, ':', j + 1, s.len() as int);
            assert(s.subrange(0, i) =~= name);
            assert(kind_of_name(name) == Some(kind));
            assert(s.subrange(i + 1, j) =~= identifier);
            assert(s.subrange(j + 1, s.len() as int) =~= path);
        },
    }
}

/// A local repository serializes to its bare path, so a local repository
/// whose path does not start with `/` does not survive the round trip:
/// parsing its serialized form fails outright rather than silently
/// succeeding.
pub proof fn lemma_local_round_trip_needs_slash(identifier: Seq<char>, path: Seq<char>)
    requires
        path.len() == 0 || path[0] != '/',
    ensures
        repo_parse(repo_string(RepositoryKind::Local, identifier, path)) != Some(
            (RepositoryKind::Local, identifier, path),
        ),
        !path.contains(':') ==> repo_parse(repo_string(RepositoryKind::Local, identifier, path))
            is None,
{
    let s = repo_string(RepositoryKind::Local, identifier, path);
    assert(!is_local_string(s));
    lemma_find_char_bounds(s, ':', 0);
    let i = find_char(s, ':', 0);
    if i < s.len() {
        lemma_find_char_bounds(s, ':', i + 1);
        let j = find_char(s, ':', i + 1);
        if j < s.len() {
            lemma_find_char_bounds(s, ':', j + 1);
            // Even where the triple split goes through, what comes out
            // carries a strictly shorter path than the one written.
            assert(s.subrange(j + 1, s.len() as int).len() < path.len());
        }
    }
    if !path.contains(':') {
        assert forall|k: int| 0 <= k < s.len() implies s[k] != ':' by {
            if s[k] == ':' {
                assert(path.contains(':'));
            }
        }
        lemma_find_char_at(s, ':', 0, s.len() as int);
    }
}

} // verus!
