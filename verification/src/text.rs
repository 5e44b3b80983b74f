//! Plain-text helpers: scanning for a character, whitespace trimming,
//! and the line-per-record format used by the configuration files.
//!
//! A list-valued configuration file holds one record per line, each line
//! terminated by `\n`. Reading is tolerant the way a line reader is: the
//! text splits at every `\n`, each piece is trimmed of surrounding
//! whitespace, and a final empty piece (the normal effect of a trailing
//! newline) is dropped.

use vstd::prelude::*;
use vstd::string::StrSliceExecFns;
use vstd::string::StringExecFns;

verus! {

/// The first index at or after `from` holding `c`, or `s.len()` if there
/// is none.
pub open spec fn find_char(s: Seq<char>, c: char, from: int) -> int
    recommends
        0 <= from <= s.len(),
    decreases s.len() - from when 0 <= from <= s.len()
{
    if from >= s.len() {
        s.len() as int
    } else if s[from] == c {
        from
    } else {
        find_char(s, c, from + 1)
    }
}

/// `find_char(s, c, from)` is exactly the index whose prefix from `from`
/// is free of `c` and which holds `c` itself (or `s.len()`).
pub proof fn lemma_find_char_at(s: Seq<char>, c: char, from: int, found: int)
    requires
        0 <= from <= found <= s.len(),
        forall|k: int| from <= k < found ==> s[k] != c,
        found < s.len() ==> s[found] == c,
    ensures
        find_char(s, c, from) == found,
    decreases found - from,
{
    if from < found {
        lemma_find_char_at(s, c, from + 1, found);
    }
}

/// Scan for `c`, starting at `from`.
pub fn find_char_from(s: &str, c: char, from: usize) -> (r: usize)
    requires
        from <= s@.len(),
    ensures
        r == find_char(s@, c, from as int),
        from <= r <= s@.len(),
{
    let n = s.unicode_len();
    let mut i: usize = from;
    while i < n && s.get_char(i) != c
        invariant
            n == s@.len(),
            from <= i <= n,
            forall|k: int| from <= k < i ==> s@[k] != c,
        decreases n - i,
    {
        i = i + 1;
    }
    proof {
        lemma_find_char_at(s@, c, from as int, i as int);
    }
    i
}

/// What `find_char` returns without knowing where the character stands:
/// an index in range, with a `c`-free prefix, holding `c` unless it is
/// `s.len()`.
pub proof fn lemma_find_char_bounds(s: Seq<char>, c: char, from: int)
    requires
        0 <= from <= s.len(),
    ensures
        from <= find_char(s, c, from) <= s.len(),
        forall|k: int| from <= k < find_char(s, c, from) ==> s[k] != c,
        find_char(s, c, from) < s.len() ==> s[find_char(s, c, from)] == c,
    decreases s.len() - from,
{
    if from < s.len() && s[from] != c {
        lemma_find_char_bounds(s, c, from + 1);
    }
}

/// Whether `c` has the Unicode `White_Space` property, the set of
/// characters that trimming removes.
pub open spec fn is_space(c: char) -> bool {
    let u = c as u32;
    (0x09 <= u && u <= 0x0D) || u == 0x20 || u == 0x85 || u == 0xA0 || u == 0x1680 || (0x2000 <= u
        && u <= 0x200A) || u == 0x2028 || u == 0x2029 || u == 0x202F || u == 0x205F || u == 0x3000
}

/// Whitespace test on one character.
pub fn is_space_char(c: char) -> (r: bool)
    ensures
        r == is_space(c),
{
    let u = c as u32;
    (0x09 <= u && u <= 0x0D) || u == 0x20 || u == 0x85 || u == 0xA0 || u == 0x1680 || (0x2000 <= u
        && u <= 0x200A) || u == 0x2028 || u == 0x2029 || u == 0x202F || u == 0x205F || u == 0x3000
}

/// The first index at or after `from` holding a non-whitespace
/// character, or `s.len()` if there is none.
pub open spec fn find_non_space(s: Seq<char>, from: int) -> int
    recommends
        0 <= from <= s.len(),
    decreases s.len() - from when 0 <= from <= s.len()
{
    if from >= s.len() {
        s.len() as int
    } else if !is_space(s[from]) {
        from
    } else {
        find_non_space(s, from + 1)
    }
}

proof fn lemma_find_non_space_at(s: Seq<char>, from: int, found: int)
    requires
        0 <= from <= found <= s.len(),
        forall|k: int| from <= k < found ==> is_space(s[k]),
        found < s.len() ==> !is_space(s[found]),
    ensures
        find_non_space(s, from) == found,
    decreases found - from,
{
    if from < found {
        lemma_find_non_space_at(s, from + 1, found);
    }
}

/// The length of `s` once trailing whitespace is dropped.
pub open spec fn trim_end(s: Seq<char>) -> int
    decreases s.len(),
{
    if s.len() == 0 {
        0
    } else if is_space(s[s.len() - 1]) {
        trim_end(s.drop_last())
    } else {
        s.len() as int
    }
}

proof fn lemma_trim_end_at(s: Seq<char>, found: int)
    requires
        0 <= found <= s.len(),
        forall|k: int| found <= k < s.len() ==> is_space(s[k]),
        found > 0 ==> !is_space(s[found - 1]),
    ensures
        trim_end(s) == found,
    decreases s.len(),
{
    if s.len() > found {
        assert(s.drop_last() =~= s.subrange(0, s.len() - 1));
        lemma_trim_end_at(s.drop_last(), found);
    }
}

/// `s` with leading and trailing whitespace removed.
pub open spec fn spec_trim(s: Seq<char>) -> Seq<char> {
    let a = find_non_space(s, 0);
    let b = trim_end(s);
    if a >= b {
        Seq::<char>::empty()
    } else {
        s.subrange(a, b)
    }
}

/// Remove leading and trailing whitespace.
pub fn trimmed(s: &str) -> (r: &str)
    ensures
        r@ == spec_trim(s@),
{
    let n = s.unicode_len();
    let mut a: usize = 0;
    while a < n && is_space_char(s.get_char(a))
        invariant
            n == s@.len(),
            a <= n,
            forall|k: int| 0 <= k < a ==> is_space(s@[k]),
        decreases n - a,
    {
        a = a + 1;
    }
    proof {
        lemma_find_non_space_at(s@, 0, a as int);
    }
    if a == n {
        proof {
            lemma_trim_end_at(s@, 0);
            reveal_strlit("");
            assert(""@ =~= Seq::<char>::empty());
        }
        return "";
    }
    let mut b: usize = n;
    while b > a && is_space_char(s.get_char(b - 1))
        invariant
            n == s@.len(),
            a <= b <= n,
            forall|k: int| b <= k < n ==> is_space(s@[k]),
        decreases b,
    {
        b = b - 1;
    }
    proof {
        assert(b > a) by {
            if b == a {
                assert(is_space(s@[a as int]));
            }
        }
        lemma_trim_end_at(s@, b as int);
    }
    s.substring_char(a, b)
}

proof fn lemma_find_non_space_bounds(s: Seq<char>, from: int)
    requires
        0 <= from <= s.len(),
    ensures
        from <= find_non_space(s, from) <= s.len(),
        forall|k: int| from <= k < find_non_space(s, from) ==> is_space(s[k]),
        find_non_space(s, from) < s.len() ==> !is_space(s[find_non_space(s, from)]),
    decreases s.len() - from,
{
    if from < s.len() && is_space(s[from]) {
        lemma_find_non_space_bounds(s, from + 1);
    }
}

proof fn lemma_trim_end_bounds(s: Seq<char>)
    ensures
        0 <= trim_end(s) <= s.len(),
        forall|k: int| trim_end(s) <= k < s.len() ==> is_space(s[k]),
        trim_end(s) > 0 ==> !is_space(s[trim_end(s) - 1]),
    decreases s.len(),
{
    if s.len() > 0 && is_space(s[s.len() - 1]) {
        lemma_trim_end_bounds(s.drop_last());
        assert forall|k: int| trim_end(s) <= k < s.len() implies is_space(s[k]) by {
            if k < s.len() - 1 {
                assert(s.drop_last()[k] == s[k]);
            }
        }
    }
}

/// A string whose ends are not whitespace is its own trim.
pub proof fn lemma_trim_of_clean(s: Seq<char>)
    requires
        s.len() > 0,
        !is_space(s[0]),
        !is_space(s[s.len() - 1]),
    ensures
        spec_trim(s) == s,
{
    lemma_find_non_space_at(s, 0, 0);
    lemma_trim_end_at(s, s.len() as int);
    assert(s.subrange(0, s.len() as int) =~= s);
}

/// A nonempty string that is its own trim has no whitespace at either
/// end.
pub proof fn lemma_clean_ends(s: Seq<char>)
    requires
        spec_trim(s) == s,
        s.len() > 0,
    ensures
        !is_space(s[0]),
        !is_space(s[s.len() - 1]),
{
    lemma_find_non_space_bounds(s, 0);
    lemma_trim_end_bounds(s);
    let a = find_non_space(s, 0);
    let b = trim_end(s);
    if a >= b {
        assert(spec_trim(s).len() == 0);
    } else {
        assert(spec_trim(s).len() == b - a);
        if is_space(s[0]) {
            assert(a > 0);
        }
        if is_space(s[s.len() - 1]) {
            assert(b < s.len());
        }
    }
}

/// A record that survives the line format unchanged: it holds no
/// newline and trimming leaves it as it is.
pub open spec fn line_clean(s: Seq<char>) -> bool {
    !s.contains('\n') && spec_trim(s) == s
}

/// Character-wise string equality; `==` on `&str` has no specification,
/// so comparisons in the library go through this helper.
pub fn str_eq(a: &str, b: &str) -> (r: bool)
    ensures
        r == (a@ == b@),
{
    let n = a.unicode_len();
    let m = b.unicode_len();
    if n != m {
        return false;
    }
    let mut i: usize = 0;
    while i < n
        invariant
            n == a@.len(),
            n == b@.len(),
            i <= n,
            forall|k: int| 0 <= k < i ==> a@[k] == b@[k],
        decreases n - i,
    {
        if a.get_char(i) != b.get_char(i) {
            return false;
        }
        i = i + 1;
    }
    proof {
        assert(a@ =~= b@);
    }
    true
}

/// Relies on String::push: appends exactly the one character `c`.
#[verifier::external_body]
pub fn push_char(s: &mut String, c: char)
    ensures
        final(s)@ == old(s)@.push(c),
{
    s.push(c);
}

/// Decide whether a string survives the line format unchanged.
pub fn str_is_clean_line(s: &str) -> (r: bool)
    ensures
        r == line_clean(s@),
{
    let n = s.unicode_len();
    let nl = find_char_from(s, '\n', 0);
    proof {
        lemma_find_char_bounds(s@, '\n', 0);
        if nl < n {
            assert(s@.contains('\n')) by {
                assert(s@[nl as int] == '\n');
            }
        } else {
            assert(!s@.contains('\n')) by {
                if s@.contains('\n') {
                    let k = choose|k: int| 0 <= k < s@.len() && s@[k] == '\n';
                    assert(s@[k] != '\n');
                }
            }
        }
    }
    if nl < n {
        return false;
    }
    if n == 0 {
        proof {
            assert(s@ =~= Seq::<char>::empty());
        }
        return true;
    }
    let first_ok = !is_space_char(s.get_char(0));
    let last_ok = !is_space_char(s.get_char(n - 1));
    proof {
        if first_ok && last_ok {
            lemma_trim_of_clean(s@);
        } else {
            if spec_trim(s@) == s@ {
                lemma_clean_ends(s@);
            }
        }
    }
    first_ok && last_ok
}

/// The text of a list-valued configuration file: each record followed by
/// a newline.
pub open spec fn spec_render_lines(lines: Seq<Seq<char>>) -> Seq<char>
    decreases lines.len(),
{
    if lines.len() == 0 {
        Seq::<char>::empty()
    } else {
        lines[0] + seq!['\n'] + spec_render_lines(lines.drop_first())
    }
}

proof fn lemma_render_lines_push(lines: Seq<Seq<char>>, x: Seq<char>)
    ensures
        spec_render_lines(lines.push(x)) =~= spec_render_lines(lines) + x + seq!['\n'],
    decreases lines.len(),
{
    if lines.len() == 0 {
        assert(lines.push(x).drop_first() =~= lines);
    } else {
        assert(lines.push(x).drop_first() =~= lines.drop_first().push(x));
        lemma_render_lines_push(lines.drop_first(), x);
    }
}

/// Write one record per line, each line terminated by `\n`.
pub fn render_lines(lines: &Vec<String>) -> (r: String)
    ensures
        r@ == spec_render_lines(lines.deep_view()),
{
    let mut out = String::new();
    let mut i: usize = 0;
    while i < lines.len()
        invariant
            i <= lines.len(),
            lines.deep_view().len() == lines.len(),
            out@ == spec_render_lines(lines.deep_view().take(i as int)),
        decreases lines.len() - i,
    {
        out.append(lines[i].as_str());
        out.append("\n");
        proof {
            reveal_strlit("\n");
            assert("\n"@ =~= seq!['\n']);
            let prefix = lines.deep_view().take(i as int);
            lemma_render_lines_push(prefix, lines.deep_view()[i as int]);
            assert(lines.deep_view().take(i + 1) =~= prefix.push(lines.deep_view()[i as int]));
            assert(lines.deep_view()[i as int] == lines[i as int]@);
            assert(out@ =~= spec_render_lines(lines.deep_view().take(i + 1)));
        }
        i = i + 1;
    }
    proof {
        assert(lines.deep_view().take(lines.len() as int) =~= lines.deep_view());
    }
    out
}

/// The records held by a list-valued configuration file: the text split
/// at every newline, each piece trimmed, a final empty piece dropped.
pub open spec fn spec_parse_lines(s: Seq<char>) -> Seq<Seq<char>>
    decreases s.len(),
{
    if s.len() == 0 {
        Seq::<Seq<char>>::empty()
    } else {
        let i = find_char(s, '\n', 0);
        if 0 <= i && i < s.len() {
            seq![spec_trim(s.subrange(0, i))] + spec_parse_lines(s.subrange(i + 1, s.len() as int))
        } else {
            seq![spec_trim(s)]
        }
    }
}

/// Splitting off the first line: if the first newline of `s` stands at
/// `i`, the records of `s` are the trimmed prefix before `i` followed by
/// the records of the rest.
proof fn lemma_parse_lines_split(s: Seq<char>, i: int)
    requires
        0 <= i < s.len(),
        s[i] == '\n',
        forall|k: int| 0 <= k < i ==> s[k] != '\n',
    ensures
        spec_parse_lines(s) == seq![spec_trim(s.subrange(0, i))] + spec_parse_lines(
            s.subrange(i + 1, s.len() as int),
        ),
{
    lemma_find_char_at(s, '\n', 0, i);
}

/// Read the records of a list-valued configuration file.
pub fn parse_lines(s: &str) -> (r: Vec<String>)
    ensures
        r.deep_view() == spec_parse_lines(s@),
{
    let n = s.unicode_len();
    let mut out: Vec<String> = Vec::new();
    proof {
        assert(out.deep_view() =~= Seq::<Seq<char>>::empty());
        assert(s@.subrange(0, n as int) =~= s@);
        assert(Seq::<Seq<char>>::empty() + spec_parse_lines(s@) =~= spec_parse_lines(s@));
    }
    let mut start: usize = 0;
    let mut i: usize = 0;
    while i < n
        invariant
            n == s@.len(),
            start <= i <= n,
            forall|k: int| start <= k < i ==> s@[k] != '\n',
            spec_parse_lines(s@) == out.deep_view() + spec_parse_lines(
                s@.subrange(start as int, n as int),
            ),
        decreases n - i,
    {
        if s.get_char(i) == '\n' {
            let piece = trimmed(s.substring_char(start, i)).to_owned();
            let ghost pre = out.deep_view();
            out.push(piece);
            proof {
                let t = s@.subrange(start as int, n as int);
                assert(t[i - start] == '\n');
                assert forall|k: int| 0 <= k < i - start implies t[k] != '\n' by {
                    assert(t[k] == s@[start + k]);
                }
                lemma_parse_lines_split(t, i - start);
                assert(t.subrange(0, i - start) =~= s@.subrange(start as int, i as int));
                assert(t.subrange(i - start + 1, t.len() as int) =~= s@.subrange(
                    i + 1,
                    n as int,
                ));
                assert(out.deep_view() =~= pre.push(piece@));
                assert(pre.push(piece@) + spec_parse_lines(s@.subrange(i + 1, n as int)) =~= pre
                    + (seq![piece@] + spec_parse_lines(s@.subrange(i + 1, n as int))));
            }
            start = i + 1;
        }
        i = i + 1;
    }
    if start < n {
        let piece = trimmed(s.substring_char(start, n)).to_owned();
        let ghost pre = out.deep_view();
        out.push(piece);
        proof {
            let t = s@.subrange(start as int, n as int);
            assert forall|k: int| 0 <= k < t.len() implies t[k] != '\n' by {
                assert(t[k] == s@[start + k]);
            }
            lemma_find_char_at(t, '\n', 0, t.len() as int);
            assert(spec_parse_lines(t) == seq![spec_trim(t)]);
            assert(out.deep_view() =~= pre.push(piece@));
            assert(pre.push(piece@) =~= pre + seq![piece@]);
        }
    } else {
        proof {
            assert(s@.subrange(start as int, n as int).len() == 0);
            assert(out.deep_view() + spec_parse_lines(s@.subrange(start as int, n as int))
                =~= out.deep_view());
        }
    }
    out
}

/// Round trip of the line format: clean records written with
/// `render_lines` are read back unchanged by `parse_lines`.
pub proof fn lemma_parse_render_lines(lines: Seq<Seq<char>>)
    requires
        forall|k: int| 0 <= k < lines.len() ==> line_clean(#[trigger] lines[k]),
    ensures
        spec_parse_lines(spec_render_lines(lines)) == lines,
    decreases lines.len(),
{
    if lines.len() == 0 {
    } else {
        let s = spec_render_lines(lines);
        let head = lines[0];
        let rest = spec_render_lines(lines.drop_first());
        let i = head.len() as int;
        assert(s =~= head + seq!['\n'] + rest);
        assert(s[i] == '\n');
        assert forall|k: int| 0 <= k < i implies s[k] != '\n' by {
            assert(s[k] == head[k]);
            assert(!head.contains('\n'));
            assert(head[k] != '\n');
        }
        lemma_parse_lines_split(s, i);
        assert(s.subrange(0, i) =~= head);
        assert(s.subrange(i + 1, s.len() as int) =~= rest);
        lemma_parse_render_lines(lines.drop_first());
        assert(seq![head] + lines.drop_first() =~= lines);
    }
}

} // verus!
