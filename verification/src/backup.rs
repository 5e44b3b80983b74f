//! Backup definitions: the named, durable record of what to back up,
//! where, and with what credentials.

use vstd::prelude::*;

use crate::repository::repo_fields_wf;
use crate::repository::Repository;
use crate::repository::RepositoryKind;
use crate::text::find_char_from;
use crate::text::line_clean;
use crate::text::str_is_clean_line;

verus! {

/// A named backup definition. `name` is the backup's external identity:
/// it appears in every protocol message and is the on-disk directory
/// name. `key_id` and `key_secret` are meaningful only for B2
/// repositories; their absence for other kinds is not an error.
#[derive(Debug)]
pub struct Backup {
    pub name: String,
    pub repository: Repository,
    pub key_id: Option<String>,
    pub key_secret: Option<String>,
    pub password: String,
    pub includes: Vec<String>,
    pub excludes: Vec<String>,
}

/// A valid backup name: a single path component, so nonempty, free of
/// separators, and not one of the relative-path names.
pub open spec fn name_wf(name: Seq<char>) -> bool {
    name.len() > 0 && !name.contains('/') && name != "."@ && name != ".."@
}

/// Check a backup name for validity as a path component.
pub fn check_name(name: &str) -> (r: bool)
    ensures
        r == name_wf(name@),
{
    let n = name.unicode_len();
    let slash = find_char_from(name, '/', 0);
    proof {
        crate::text::lemma_find_char_bounds(name@, '/', 0);
        if slash == n {
            assert(!name@.contains('/')) by {
                if name@.contains('/') {
                    let k = choose|k: int| 0 <= k < name@.len() && name@[k] == '/';
                    assert(name@[k] != '/');
                }
            }
        } else {
            assert(name@.contains('/')) by {
                assert(name@[slash as int] == '/');
            }
        }
    }
    n > 0 && slash == n && !crate::text::str_eq(name, ".") && !crate::text::str_eq(
        name,
        "..",
    )
}

/// Whether the definition carries the credentials its repository kind
/// needs: B2 repositories demand both key fields.
pub open spec fn keys_wf(b: Backup) -> bool {
    b.repository.kind == RepositoryKind::B2 ==> b.key_id is Some && b.key_secret is Some
}

/// A fully well-formed definition: a valid name, a repository that
/// survives its connection-string round trip, list entries that survive
/// the line format, and, for B2, credentials that survive the
/// environment file.
pub open spec fn backup_wf(b: Backup) -> bool {
    &&& name_wf(b.name@)
    &&& repo_fields_wf(b.repository.kind, b.repository.identifier@, b.repository.path@)
    &&& keys_wf(b)
    &&& forall|k: int|
        0 <= k < b.includes.deep_view().len() ==> line_clean(#[trigger] b.includes.deep_view()[k])
    &&& forall|k: int|
        0 <= k < b.excludes.deep_view().len() ==> line_clean(#[trigger] b.excludes.deep_view()[k])
    &&& b.repository.kind == RepositoryKind::B2 ==> line_clean(b.key_id.unwrap()@) && line_clean(
        b.key_secret.unwrap()@,
    )
}

/// Check that every entry of a list survives the line format: no
/// newline, no surrounding whitespace.
pub fn check_lines(lines: &Vec<String>) -> (r: bool)
    ensures
        r == forall|k: int|
            0 <= k < lines.deep_view().len() ==> line_clean(#[trigger] lines.deep_view()[k]),
{
    let mut i: usize = 0;
    while i < lines.len()
        invariant
            i <= lines.len(),
            lines.deep_view().len() == lines.len(),
            forall|k: int| 0 <= k < i ==> line_clean(#[trigger] lines.deep_view()[k]),
        decreases lines.len() - i,
    {
        let ok = str_is_clean_line(lines[i].as_str());
        proof {
            assert(lines.deep_view()[i as int] == lines[i as int]@);
        }
        if !ok {
            return false;
        }
        i = i + 1;
    }
    true
}

} // verus!
