//! The wire format of the daemon's own outgoing messages.
//!
//! Every protocol unit is one JSON object followed by a newline. The
//! engine's progress lines pass through as opaque text; the messages the
//! daemon synthesizes itself — the `createbackup` response and the
//! `backupslist` message — are built here character by character, with
//! the standard JSON string escaping.

use vstd::prelude::*;
use vstd::string::StrSliceExecFns;
use vstd::string::StringExecFns;

use crate::backup::Backup;
use crate::client::ClientMessage;
use crate::client::ClientMessageCreateBackup;
use crate::client::ClientMessageRunBackup;
use crate::error::ServerError;
use crate::json::add_key;
use crate::json::add_message_type;
use crate::json::get_object_field;
use crate::json::get_str_array_field;
use crate::json::get_str_field;
use crate::json::is_json_object;
use crate::json::json_object_field;
use crate::json::json_str_array_field;
use crate::json::json_str_field;
use crate::json::json_with_key;
use crate::json::try_add_key;
use crate::repository::kind_name;
use crate::repository::kind_of_name;
use crate::repository::repo_parse;
use crate::repository::Repository;
use crate::store::find_name;
use crate::store::lemma_find_name_bounds;
use crate::store::read_matches;
use crate::store::store_names;
use crate::store::store_wf;
use crate::store::Configuration;
use crate::store::FilesView;
use crate::store::StoreView;
use crate::text::push_char;
use crate::text::spec_parse_lines;
use crate::text::str_eq;

verus! {

/// The lowercase hexadecimal digit of a nibble.
pub open spec fn hex_digit(n: int) -> char {
    if n == 0 {
        '0'
    } else if n == 1 {
        '1'
    } else if n == 2 {
        '2'
    } else if n == 3 {
        '3'
    } else if n == 4 {
        '4'
    } else if n == 5 {
        '5'
    } else if n == 6 {
        '6'
    } else if n == 7 {
        '7'
    } else if n == 8 {
        '8'
    } else if n == 9 {
        '9'
    } else if n == 10 {
        'a'
    } else if n == 11 {
        'b'
    } else if n == 12 {
        'c'
    } else if n == 13 {
        'd'
    } else if n == 14 {
        'e'
    } else {
        'f'
    }
}

/// The JSON escape of one character: quote and backslash escaped, the
/// five short control escapes, `\u00xy` for the other control
/// characters, everything else as itself.
pub open spec fn esc_char(c: char) -> Seq<char> {
    if c == '"' {
        seq!['\\', '"']
    } else if c == '\\' {
        seq!['\\', '\\']
    } else if c == '\u{08}' {
        seq!['\\', 'b']
    } else if c == '\u{09}' {
        seq!['\\', 't']
    } else if c == '\u{0A}' {
        seq!['\\', 'n']
    } else if c == '\u{0C}' {
        seq!['\\', 'f']
    } else if c == '\u{0D}' {
        seq!['\\', 'r']
    } else if (c as u32) < 0x20 {
        seq!['\\', 'u', '0', '0', hex_digit((c as u32) as int / 16), hex_digit((c as u32) as int % 16)]
    } else {
        seq![c]
    }
}

/// The JSON escape of a whole string's content.
pub open spec fn spec_json_escape(s: Seq<char>) -> Seq<char>
    decreases s.len(),
{
    if s.len() == 0 {
        Seq::<char>::empty()
    } else {
        esc_char(s[0]) + spec_json_escape(s.drop_first())
    }
}

proof fn lemma_json_escape_push(s: Seq<char>, c: char)
    ensures
        spec_json_escape(s.push(c)) =~= spec_json_escape(s) + esc_char(c),
    decreases s.len(),
{
    if s.len() == 0 {
        assert(s.push(c).drop_first() =~= s);
    } else {
        assert(s.push(c).drop_first() =~= s.drop_first().push(c));
        lemma_json_escape_push(s.drop_first(), c);
    }
}

/// A JSON string token: the escaped content between quotes.
pub open spec fn spec_json_string(s: Seq<char>) -> Seq<char> {
    seq!['"'] + spec_json_escape(s) + seq!['"']
}

fn append_control_escape(out: &mut String, u: u32)
    requires
        u < 0x20,
    ensures
        final(out)@ == old(out)@ + seq![
            '\\',
            'u',
            '0',
            '0',
            hex_digit(u as int / 16),
            hex_digit(u as int % 16),
        ],
{
    out.append("\\u00");
    let hi = u / 16;
    let lo = u % 16;
    append_hex_digit(out, hi);
    append_hex_digit(out, lo);
    proof {
        reveal_strlit("\\u00");
        assert(final(out)@ =~= old(out)@ + seq![
            '\\',
            'u',
            '0',
            '0',
            hex_digit(u as int / 16),
            hex_digit(u as int % 16),
        ]);
    }
}

fn append_hex_digit(out: &mut String, n: u32)
    requires
        n < 16,
    ensures
        final(out)@ == old(out)@.push(hex_digit(n as int)),
{
    if n == 0 {
        push_char(out, '0');
    } else if n == 1 {
        push_char(out, '1');
    } else if n == 2 {
        push_char(out, '2');
    } else if n == 3 {
        push_char(out, '3');
    } else if n == 4 {
        push_char(out, '4');
    } else if n == 5 {
        push_char(out, '5');
    } else if n == 6 {
        push_char(out, '6');
    } else if n == 7 {
        push_char(out, '7');
    } else if n == 8 {
        push_char(out, '8');
    } else if n == 9 {
        push_char(out, '9');
    } else if n == 10 {
        push_char(out, 'a');
    } else if n == 11 {
        push_char(out, 'b');
    } else if n == 12 {
        push_char(out, 'c');
    } else if n == 13 {
        push_char(out, 'd');
    } else if n == 14 {
        push_char(out, 'e');
    } else {
        push_char(out, 'f');
    }
}

/// Append the JSON escape of `s`'s content to `out`.
fn append_json_escape(out: &mut String, s: &str)
    ensures
        final(out)@ == old(out)@ + spec_json_escape(s@),
{
    let n = s.unicode_len();
    let mut i: usize = 0;
    proof {
        assert(s@.take(0) =~= Seq::<char>::empty());
        assert(old(out)@ + spec_json_escape(s@.take(0)) =~= old(out)@);
    }
    while i < n
        invariant
            n == s@.len(),
            i <= n,
            out@ == old(out)@ + spec_json_escape(s@.take(i as int)),
        decreases n - i,
    {
        let c = s.get_char(i);
        let u = c as u32;
        if c == '"' {
            out.append("\\\"");
            proof {
                reveal_strlit("\\\"");
                assert("\\\""@ =~= esc_char(c));
            }
        } else if c == '\\' {
            out.append("\\\\");
            proof {
                reveal_strlit("\\\\");
                assert("\\\\"@ =~= esc_char(c));
            }
        } else if u == 0x08 {
            out.append("\\b");
            proof {
                reveal_strlit("\\b");
                assert("\\b"@ =~= esc_char(c));
            }
        } else if u == 0x09 {
            out.append("\\t");
            proof {
                reveal_strlit("\\t");
                assert("\\t"@ =~= esc_char(c));
            }
        } else if u == 0x0A {
            out.append("\\n");
            proof {
                reveal_strlit("\\n");
                assert("\\n"@ =~= esc_char(c));
            }
        } else if u == 0x0C {
            out.append("\\f");
            proof {
                reveal_strlit("\\f");
                assert("\\f"@ =~= esc_char(c));
            }
        } else if u == 0x0D {
            out.append("\\r");
            proof {
                reveal_strlit("\\r");
                assert("\\r"@ =~= esc_char(c));
            }
        } else if u < 0x20 {
            append_control_escape(out, u);
        } else {
            push_char(out, c);
            proof {
                assert(seq![c] =~= esc_char(c));
            }
        }
        proof {
            lemma_json_escape_push(s@.take(i as int), c);
            assert(s@.take(i + 1) =~= s@.take(i as int).push(c));
            assert(out@ =~= old(out)@ + spec_json_escape(s@.take(i + 1)));
        }
        i = i + 1;
    }
    proof {
        assert(s@.take(n as int) =~= s@);
    }
}

/// Append a JSON string token for `s` to `out`.
fn append_json_string(out: &mut String, s: &str)
    ensures
        final(out)@ == old(out)@ + spec_json_string(s@),
{
    out.append("\"");
    append_json_escape(out, s);
    out.append("\"");
    proof {
        reveal_strlit("\"");
        assert("\""@ =~= seq!['"']);
        assert(final(out)@ =~= old(out)@ + spec_json_string(s@));
    }
}

/// A JSON string token, or `null` for an absent value, the way an
/// optional field serializes.
pub open spec fn spec_opt_string_json(o: Option<Seq<char>>) -> Seq<char> {
    match o {
        Some(s) => spec_json_string(s),
        None => "null"@,
    }
}

fn append_opt_json_string(out: &mut String, o: &Option<String>)
    ensures
        final(out)@ == old(out)@ + spec_opt_string_json(o.deep_view()),
{
    match o {
        Some(s) => append_json_string(out, s.as_str()),
        None => {
            out.append("null");
        },
    }
}

/// The comma-joined JSON string tokens of an array's items.
pub open spec fn spec_json_string_items(v: Seq<Seq<char>>) -> Seq<char>
    decreases v.len(),
{
    if v.len() == 0 {
        Seq::<char>::empty()
    } else if v.len() == 1 {
        spec_json_string(v[0])
    } else {
        spec_json_string(v[0]) + seq![','] + spec_json_string_items(v.drop_first())
    }
}

proof fn lemma_json_string_items_push(v: Seq<Seq<char>>, x: Seq<char>)
    ensures
        spec_json_string_items(v.push(x)) =~= if v.len() == 0 {
            spec_json_string(x)
        } else {
            spec_json_string_items(v) + seq![','] + spec_json_string(x)
        },
    decreases v.len(),
{
    if v.len() == 0 {
        assert(v.push(x)[0] == x);
    } else {
        assert(v.push(x).drop_first() =~= v.drop_first().push(x));
        lemma_json_string_items_push(v.drop_first(), x);
        if v.len() == 1 {
            assert(v.drop_first().len() == 0);
        }
    }
}

/// A JSON array of strings.
pub open spec fn spec_string_array_json(v: Seq<Seq<char>>) -> Seq<char> {
    seq!['['] + spec_json_string_items(v) + seq![']']
}

fn append_string_array_json(out: &mut String, v: &Vec<String>)
    ensures
        final(out)@ == old(out)@ + spec_string_array_json(v.deep_view()),
{
    out.append("[");
    let ghost mid = out@;
    let mut i: usize = 0;
    proof {
        assert(v.deep_view().take(0) =~= Seq::<Seq<char>>::empty());
        assert(mid + spec_json_string_items(v.deep_view().take(0)) =~= mid);
    }
    while i < v.len()
        invariant
            i <= v.len(),
            v.deep_view().len() == v.len(),
            out@ == mid + spec_json_string_items(v.deep_view().take(i as int)),
        decreases v.len() - i,
    {
        if i > 0 {
            out.append(",");
            proof {
                reveal_strlit(",");
                assert(","@ =~= seq![',']);
            }
        }
        append_json_string(out, v[i].as_str());
        proof {
            lemma_json_string_items_push(v.deep_view().take(i as int), v.deep_view()[i as int]);
            assert(v.deep_view().take(i + 1) =~= v.deep_view().take(i as int).push(
                v.deep_view()[i as int],
            ));
            assert(v.deep_view()[i as int] == v[i as int]@);
            assert(out@ =~= mid + spec_json_string_items(v.deep_view().take(i + 1)));
        }
        i = i + 1;
    }
    out.append("]");
    proof {
        reveal_strlit("[");
        reveal_strlit("]");
        assert("["@ =~= seq!['[']);
        assert("]"@ =~= seq![']']);
        assert(v.deep_view().take(v.len() as int) =~= v.deep_view());
        assert(final(out)@ =~= old(out)@ + spec_string_array_json(v.deep_view()));
    }
}

/// The serialized form of one backup definition, as it appears inside a
/// `backupslist` message: every field in declaration order, the kind by
/// its lowercase name, absent credentials as `null`, the include and
/// exclude records as string arrays.
pub open spec fn spec_backup_json(b: Backup) -> Seq<char> {
    "{\"name\":"@ + spec_json_string(b.name@) + ",\"repository\":{\"kind\":"@ + spec_json_string(
        kind_name(b.repository.kind),
    ) + ",\"identifier\":"@ + spec_json_string(b.repository.identifier@) + ",\"path\":"@
        + spec_json_string(b.repository.path@) + "},\"key_id\":"@ + spec_opt_string_json(
        b.key_id.deep_view(),
    ) + ",\"key_secret\":"@ + spec_opt_string_json(b.key_secret.deep_view()) + ",\"password\":"@
        + spec_json_string(b.password@) + ",\"include\":"@ + spec_string_array_json(
        b.includes.deep_view(),
    ) + ",\"exclude\":"@ + spec_string_array_json(b.excludes.deep_view()) + "}"@
}

impl Backup {
    /// Serialize this definition to its JSON object text.
    pub fn to_json(&self) -> (r: String)
        ensures
            r@ == spec_backup_json(*self),
    {
        let mut out = String::from_str("{\"name\":");
        append_json_string(&mut out, self.name.as_str());
        out.append(",\"repository\":{\"kind\":");
        append_json_string(&mut out, self.repository.kind.to_string().as_str());
        out.append(",\"identifier\":");
        append_json_string(&mut out, self.repository.identifier.as_str());
        out.append(",\"path\":");
        append_json_string(&mut out, self.repository.path.as_str());
        out.append("},\"key_id\":");
        append_opt_json_string(&mut out, &self.key_id);
        out.append(",\"key_secret\":");
        append_opt_json_string(&mut out, &self.key_secret);
        out.append(",\"password\":");
        append_json_string(&mut out, self.password.as_str());
        out.append(",\"include\":");
        append_string_array_json(&mut out, &self.includes);
        out.append(",\"exclude\":");
        append_string_array_json(&mut out, &self.excludes);
        out.append("}");
        proof {
            assert(out@ =~= spec_backup_json(*self));
        }
        out
    }
}

/// The comma-joined serialized definitions of a list.
pub open spec fn spec_backup_json_items(v: Seq<Backup>) -> Seq<char>
    decreases v.len(),
{
    if v.len() == 0 {
        Seq::<char>::empty()
    } else if v.len() == 1 {
        spec_backup_json(v[0])
    } else {
        spec_backup_json(v[0]) + seq![','] + spec_backup_json_items(v.drop_first())
    }
}

proof fn lemma_backup_json_items_push(v: Seq<Backup>, x: Backup)
    ensures
        spec_backup_json_items(v.push(x)) =~= if v.len() == 0 {
            spec_backup_json(x)
        } else {
            spec_backup_json_items(v) + seq![','] + spec_backup_json(x)
        },
    decreases v.len(),
{
    if v.len() == 0 {
        assert(v.push(x)[0] == x);
    } else {
        assert(v.push(x).drop_first() =~= v.drop_first().push(x));
        lemma_backup_json_items_push(v.drop_first(), x);
        if v.len() == 1 {
            assert(v.drop_first().len() == 0);
        }
    }
}

/// The `backupslist` message: the full ordered list of known
/// definitions, tagged with its discriminator.
pub open spec fn spec_backups_list_line(v: Seq<Backup>) -> Seq<char> {
    "{\"message_type\":\"backupslist\",\"list\":["@ + spec_backup_json_items(v) + "]}"@
}

/// Serialize the `backupslist` message for these definitions.
pub fn backups_list_line(backups: &Vec<Backup>) -> (r: String)
    ensures
        r@ == spec_backups_list_line(backups@),
{
    let mut out = String::from_str("{\"message_type\":\"backupslist\",\"list\":[");
    let mut i: usize = 0;
    let ghost mid = out@;
    proof {
        assert(backups@.take(0) =~= Seq::<Backup>::empty());
        assert(mid + spec_backup_json_items(backups@.take(0)) =~= mid);
    }
    while i < backups.len()
        invariant
            i <= backups.len(),
            out@ == mid + spec_backup_json_items(backups@.take(i as int)),
        decreases backups.len() - i,
    {
        if i > 0 {
            out.append(",");
            proof {
                reveal_strlit(",");
                assert(","@ =~= seq![',']);
            }
        }
        let piece = backups[i].to_json();
        out.append(piece.as_str());
        proof {
            lemma_backup_json_items_push(backups@.take(i as int), backups@[i as int]);
            assert(backups@.take(i + 1) =~= backups@.take(i as int).push(backups@[i as int]));
            assert(out@ =~= mid + spec_backup_json_items(backups@.take(i + 1)));
        }
        i = i + 1;
    }
    out.append("]}");
    proof {
        assert(backups@.take(backups.len() as int) =~= backups@);
        assert(out@ =~= spec_backups_list_line(backups@));
    }
    out
}

/// The single response line of a `createbackup` request: `OK`, or the
/// specific error with its detail.
pub open spec fn spec_create_response_line(res: Result<(), ServerError>) -> Seq<char> {
    match res {
        Ok(_) => "{\"message\":\"OK\"}"@,
        Err(ServerError::Configuration(d)) => "{\"error\":{\"Configuration\":"@ + spec_json_string(
            d@,
        ) + "}}"@,
        Err(ServerError::RepoInit(d)) => "{\"error\":{\"RepoInit\":"@ + spec_json_string(d@)
            + "}}"@,
    }
}

/// Whether the line is a well-formed `listbackups` request.
pub open spec fn spec_is_list(line: Seq<char>) -> bool {
    json_str_field(line, "message_type"@) == Some("listbackups"@)
}

/// Whether the line is a well-formed `runbackup` request.
pub open spec fn spec_is_run(line: Seq<char>) -> bool {
    json_str_field(line, "message_type"@) == Some("runbackup"@) && json_str_field(line, "name"@)
        is Some
}

/// Whether the line is a well-formed `createbackup` request: the tag,
/// and a `backup` object carrying every required field, with a known
/// repository kind.
pub open spec fn spec_is_create(line: Seq<char>) -> bool {
    json_str_field(line, "message_type"@) == Some("createbackup"@) && match json_object_field(
        line,
        "backup"@,
    ) {
        Some(o) => {
            &&& json_str_field(o, "name"@) is Some
            &&& match json_object_field(o, "repository"@) {
                Some(ro) => {
                    &&& match json_str_field(ro, "kind"@) {
                        Some(k) => kind_of_name(k) is Some,
                        None => false,
                    }
                    &&& json_str_field(ro, "identifier"@) is Some
                    &&& json_str_field(ro, "path"@) is Some
                },
                None => false,
            }
            &&& json_str_field(o, "password"@) is Some
            &&& json_str_array_field(o, "include"@) is Some
            &&& json_str_array_field(o, "exclude"@) is Some
        },
        None => false,
    }
}

/// Whether a decoded definition is exactly what the `createbackup` line
/// carries, field for field.
pub open spec fn spec_create_matches(line: Seq<char>, b: Backup) -> bool {
    match json_object_field(line, "backup"@) {
        Some(o) => {
            &&& json_str_field(o, "name"@) == Some(b.name@)
            &&& match json_object_field(o, "repository"@) {
                Some(ro) => {
                    &&& json_str_field(ro, "kind"@) == Some(kind_name(b.repository.kind))
                    &&& json_str_field(ro, "identifier"@) == Some(b.repository.identifier@)
                    &&& json_str_field(ro, "path"@) == Some(b.repository.path@)
                },
                None => false,
            }
            &&& b.key_id.deep_view() == json_str_field(o, "key_id"@)
            &&& b.key_secret.deep_view() == json_str_field(o, "key_secret"@)
            &&& json_str_field(o, "password"@) == Some(b.password@)
            &&& json_str_array_field(o, "include"@) == Some(b.includes.deep_view())
            &&& json_str_array_field(o, "exclude"@) == Some(b.excludes.deep_view())
        },
        None => false,
    }
}

/// Decode one request line. A malformed line — text that is not JSON,
/// carries no known `message_type`, or misses a required field — yields
/// `None` and is silently ignored by the connection, which favors the
/// channel's availability over protocol strictness.
pub fn parse_client_message(line: &str) -> (r: Option<ClientMessage>)
    ensures
        match r {
            None => !spec_is_create(line@) && !spec_is_run(line@) && !spec_is_list(line@),
            Some(msg) => match msg {
                ClientMessage::CreateBackup(c) => spec_is_create(line@) && spec_create_matches(
                    line@,
                    c.backup,
                ),
                ClientMessage::RunBackup(m) => spec_is_run(line@) && json_str_field(
                    line@,
                    "name"@,
                ) == Some(m.name@),
                ClientMessage::ListBackups => spec_is_list(line@),
            },
        },
{
    proof {
        reveal_strlit("createbackup");
        reveal_strlit("runbackup");
        reveal_strlit("listbackups");
        assert("createbackup"@.len() == 12);
        assert("runbackup"@.len() == 9);
        assert("listbackups"@.len() == 11);
    }
    let mt = match get_str_field(line, "message_type") {
        Some(m) => m,
        None => {
            return None;
        },
    };
    if str_eq(mt.as_str(), "createbackup") {
        let obj = match get_object_field(line, "backup") {
            Some(o) => o,
            None => {
                return None;
            },
        };
        let name = match get_str_field(obj.as_str(), "name") {
            Some(v) => v,
            None => {
                return None;
            },
        };
        let repo_obj = match get_object_field(obj.as_str(), "repository") {
            Some(o) => o,
            None => {
                return None;
            },
        };
        let kind_s = match get_str_field(repo_obj.as_str(), "kind") {
            Some(v) => v,
            None => {
                return None;
            },
        };
        let kind = match crate::repository::RepositoryKind::from_name(kind_s.as_str()) {
            Some(k) => k,
            None => {
                return None;
            },
        };
        let identifier = match get_str_field(repo_obj.as_str(), "identifier") {
            Some(v) => v,
            None => {
                return None;
            },
        };
        let path = match get_str_field(repo_obj.as_str(), "path") {
            Some(v) => v,
            None => {
                return None;
            },
        };
        let password = match get_str_field(obj.as_str(), "password") {
            Some(v) => v,
            None => {
                return None;
            },
        };
        let key_id = get_str_field(obj.as_str(), "key_id");
        let key_secret = get_str_field(obj.as_str(), "key_secret");
        let includes = match get_str_array_field(obj.as_str(), "include") {
            Some(v) => v,
            None => {
                return None;
            },
        };
        let excludes = match get_str_array_field(obj.as_str(), "exclude") {
            Some(v) => v,
            None => {
                return None;
            },
        };
        Some(
            ClientMessage::CreateBackup(
                ClientMessageCreateBackup {
                    backup: Backup {
                        name,
                        repository: Repository { kind, identifier, path },
                        key_id,
                        key_secret,
                        password,
                        includes,
                        excludes,
                    },
                },
            ),
        )
    } else if str_eq(mt.as_str(), "runbackup") {
        match get_str_field(line, "name") {
            Some(name) => Some(ClientMessage::RunBackup(ClientMessageRunBackup { name })),
            None => None,
        }
    } else if str_eq(mt.as_str(), "listbackups") {
        Some(ClientMessage::ListBackups)
    } else {
        None
    }
}

/// Annotate one raw statistics line the way the aggregation streams it:
/// inject the `backupstats` discriminator and the backup's name into the
/// engine's opaque JSON object. A line that is no JSON object — a
/// failed query — yields `None` and is omitted from the stream.
pub fn annotate_stats_line(name: &str, stats: &str) -> (r: Option<String>)
    ensures
        r is Some <==> is_json_object(stats@),
        r matches Some(out) ==> out@ == json_with_key(
            json_with_key(stats@, "message_type"@, "backupstats"@),
            "name"@,
            name@,
        ),
{
    let probe = try_add_key(stats, "message_type", String::from_str("backupstats"));
    if probe.is_none() {
        return None;
    }
    let tagged = add_message_type(stats, "backupstats");
    let line = add_key(tagged.as_str(), "name", name.to_owned());
    Some(line)
}

/// The serialized read-back definition of one stored directory: what
/// `spec_backup_json` gives for the definition the directory holds.
pub open spec fn spec_stored_backup_json(name: Seq<char>, f: FilesView) -> Seq<char> {
    "{\"name\":"@ + spec_json_string(name) + ",\"repository\":{\"kind\":"@ + spec_json_string(
        kind_name(repo_parse(f.repo).unwrap().0),
    ) + ",\"identifier\":"@ + spec_json_string(repo_parse(f.repo).unwrap().1) + ",\"path\":"@
        + spec_json_string(repo_parse(f.repo).unwrap().2) + "},\"key_id\":"@ + "null"@
        + ",\"key_secret\":"@ + "null"@ + ",\"password\":"@ + spec_json_string(f.password)
        + ",\"include\":"@ + spec_string_array_json(spec_parse_lines(f.includes))
        + ",\"exclude\":"@ + spec_string_array_json(spec_parse_lines(f.excludes)) + "}"@
}

/// The comma-joined serialized definitions of a whole store.
pub open spec fn spec_stored_items(m: StoreView) -> Seq<char>
    decreases m.len(),
{
    if m.len() == 0 {
        Seq::<char>::empty()
    } else if m.len() == 1 {
        spec_stored_backup_json(m[0].0, m[0].1)
    } else {
        spec_stored_backup_json(m[0].0, m[0].1) + seq![','] + spec_stored_items(m.drop_first())
    }
}

/// The `backupslist` line of a whole store.
pub open spec fn spec_list_line(m: StoreView) -> Seq<char> {
    "{\"message_type\":\"backupslist\",\"list\":["@ + spec_stored_items(m) + "]}"@
}

proof fn lemma_items_of_store(v: Seq<Backup>, m: StoreView)
    requires
        v.len() == m.len(),
        forall|i: int| 0 <= i < m.len() ==> read_matches((#[trigger] m[i]).1, m[i].0, v[i]),
    ensures
        spec_backup_json_items(v) == spec_stored_items(m),
    decreases m.len(),
{
    if m.len() > 0 {
        assert(spec_backup_json(v[0]) =~= spec_stored_backup_json(m[0].0, m[0].1));
        assert forall|i: int|
            0 <= i < m.drop_first().len() implies read_matches(
            (#[trigger] m.drop_first()[i]).1,
            m.drop_first()[i].0,
            v.drop_first()[i],
        ) by {
            assert(m.drop_first()[i] == m[i + 1]);
            assert(v.drop_first()[i] == v[i + 1]);
        }
        lemma_items_of_store(v.drop_first(), m.drop_first());
    }
}

/// The statistics lines of the fan-out, over the first `upto` outcomes:
/// each successful query's object, annotated; a failed or malformed one
/// omitted.
pub open spec fn spec_stats_lines(
    names: Seq<Seq<char>>,
    stats: Seq<Option<Seq<char>>>,
    upto: int,
) -> Seq<Seq<char>>
    decreases upto,
{
    if upto <= 0 {
        Seq::<Seq<char>>::empty()
    } else {
        let rest = spec_stats_lines(names, stats, upto - 1);
        match stats[upto - 1] {
            Some(line) => if is_json_object(line) {
                rest.push(
                    json_with_key(
                        json_with_key(line, "message_type"@, "backupstats"@),
                        "name"@,
                        names[upto - 1],
                    ),
                )
            } else {
                rest
            },
            None => rest,
        }
    }
}

impl Configuration {
    /// Reconstruct every stored definition, in enumeration order — the
    /// synchronous first phase of a listing.
    pub fn all_backups(&self) -> (r: Vec<Backup>)
        requires
            store_wf(self@),
        ensures
            r@.len() == self@.len(),
            forall|i: int|
                0 <= i < self@.len() ==> read_matches((#[trigger] self@[i]).1, self@[i].0, r@[i]),
    {
        let names = self.list_names();
        proof {
            assert(names.deep_view().len() == store_names(self@).len());
            assert(store_names(self@).len() == self@.len());
        }
        let mut r: Vec<Backup> = Vec::new();
        let mut i: usize = 0;
        while i < names.len()
            invariant
                store_wf(self@),
                i <= names.len(),
                names.deep_view() == store_names(self@),
                names.deep_view().len() == names.len(),
                names.len() == self@.len(),
                r@.len() == i,
                forall|k: int|
                    0 <= k < i ==> read_matches((#[trigger] self@[k]).1, self@[k].0, r@[k]),
            decreases names.len() - i,
        {
            proof {
                assert(names.deep_view()[i as int] == names[i as int]@);
                assert(store_names(self@)[i as int] == self@[i as int].0);
                lemma_find_name_bounds(self@, self@[i as int].0, 0);
                let f = find_name(self@, self@[i as int].0, 0);
                if f > i {
                    assert(self@[i as int].0 != self@[i as int].0);
                }
                if f < i {
                    assert(self@[f].0 != self@[i as int].0);
                }
            }
            let b = self.backup_with_name(names[i].as_str()).unwrap();
            r.push(b);
            i = i + 1;
        }
        r
    }

    /// The complete ordered output of one `listbackups` exchange, given
    /// the outcome of every statistics query: exactly one `backupslist`
    /// line naming all stored definitions, followed by at most one
    /// annotated line per backup — fewer when queries fail, whatever
    /// order the queries completed in.
    pub fn list(&self, stats: &Vec<Option<String>>) -> (r: Vec<String>)
        requires
            store_wf(self@),
            stats@.len() == self@.len(),
        ensures
            r.deep_view().len() >= 1,
            r.deep_view().len() <= 1 + self@.len(),
            r.deep_view()[0] == spec_list_line(self@),
            r.deep_view().drop_first() == spec_stats_lines(
                store_names(self@),
                stats.deep_view(),
                self@.len() as int,
            ),
    {
        let backups = self.all_backups();
        let line0 = backups_list_line(&backups);
        proof {
            lemma_items_of_store(backups@, self@);
        }
        let names = self.list_names();
        proof {
            assert(names.deep_view().len() == store_names(self@).len());
            assert(store_names(self@).len() == self@.len());
        }
        let mut r: Vec<String> = Vec::new();
        r.push(line0);
        proof {
            assert(r.deep_view() =~= seq![line0@]);
            assert(r.deep_view().drop_first() =~= spec_stats_lines(
                store_names(self@),
                stats.deep_view(),
                0,
            ));
        }
        let mut i: usize = 0;
        while i < stats.len()
            invariant
                i <= stats.len(),
                stats@.len() == self@.len(),
                stats.deep_view().len() == stats@.len(),
                names.deep_view() == store_names(self@),
                names.deep_view().len() == names.len(),
                names.len() == self@.len(),
                r.deep_view().len() >= 1,
                r.deep_view().len() <= 1 + i,
                r.deep_view()[0] == spec_list_line(self@),
                r.deep_view().drop_first() == spec_stats_lines(
                    store_names(self@),
                    stats.deep_view(),
                    i as int,
                ),
            decreases stats.len() - i,
        {
            let ghost names_v = store_names(self@);
            let ghost stats_v = stats.deep_view();
            proof {
                assert(names.deep_view()[i as int] == names[i as int]@);
            }
            match &stats[i] {
                Some(line) => {
                    proof {
                        assert(stats_v[i as int] == Some(line@));
                    }
                    match annotate_stats_line(names[i].as_str(), line.as_str()) {
                        Some(a) => {
                            let ghost pre = r.deep_view();
                            r.push(a);
                            proof {
                                assert(r.deep_view() =~= pre.push(a@));
                                assert(r.deep_view().drop_first() =~= pre.drop_first().push(a@));
                            }
                        },
                        None => {},
                    }
                },
                None => {
                    proof {
                        assert(stats_v[i as int] is None);
                    }
                },
            }
            i = i + 1;
        }
        r
    }
}

/// Serialize the response line of a `createbackup` request.
pub fn create_response_line(res: &Result<(), ServerError>) -> (r: String)
    ensures
        r@ == spec_create_response_line(*res),
{
    match res {
        Ok(_) => String::from_str("{\"message\":\"OK\"}"),
        Err(ServerError::Configuration(d)) => {
            let mut out = String::from_str("{\"error\":{\"Configuration\":");
            append_json_string(&mut out, d.as_str());
            out.append("}}");
            proof {
                assert(out@ =~= spec_create_response_line(*res));
            }
            out
        },
        Err(ServerError::RepoInit(d)) => {
            let mut out = String::from_str("{\"error\":{\"RepoInit\":");
            append_json_string(&mut out, d.as_str());
            out.append("}}");
            proof {
                assert(out@ =~= spec_create_response_line(*res));
            }
            out
        },
    }
}

} // verus!
