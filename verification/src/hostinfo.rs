//! Reading the host's identity out of an `os-release` file's text: the
//! first `NAME=` and `VERSION_ID=` entries, their values unquoted. The file
//! itself is read outside this crate; the text arrives here as a value.

use vstd::prelude::*;

use crate::text;
use crate::text::{split_spec, starts_with_spec, trim_spec};

verus! {

// ---------------------------------------------------------------------------
// Unquoting
// ---------------------------------------------------------------------------

pub open spec fn trim_quotes_start(s: Seq<char>) -> Seq<char>
    decreases s.len(),
{
    if s.len() > 0 && s[0] == '"' {
        trim_quotes_start(s.drop_first())
    } else {
        s
    }
}

pub open spec fn trim_quotes_end(s: Seq<char>) -> Seq<char>
    decreases s.len(),
{
    if s.len() > 0 && s[s.len() - 1] == '"' {
        trim_quotes_end(s.drop_last())
    } else {
        s
    }
}

/// A value with every leading and trailing double quote removed.
pub open spec fn trim_quotes_spec(s: Seq<char>) -> Seq<char> {
    trim_quotes_end(trim_quotes_start(s))
}

proof fn lemma_trim_quotes_start_index(s: Seq<char>, i: int)
    requires
        0 <= i <= s.len(),
        forall|k: int| 0 <= k < i ==> s[k] == '"',
        i < s.len() ==> s[i] != '"',
    ensures
        trim_quotes_start(s) == s.subrange(i, s.len() as int),
    decreases i,
{
    if i == 0 {
        assert(s.subrange(0, s.len() as int) =~= s);
    } else {
        let t = s.drop_first();
        assert(forall|k: int| 0 <= k < i - 1 ==> t[k] == '"');
        lemma_trim_quotes_start_index(t, i - 1);
        assert(t.subrange(i - 1, t.len() as int) =~= s.subrange(i, s.len() as int));
    }
}

proof fn lemma_trim_quotes_end_index(s: Seq<char>, j: int)
    requires
        0 <= j <= s.len(),
        forall|k: int| j <= k < s.len() ==> s[k] == '"',
        j > 0 ==> s[j - 1] != '"',
    ensures
        trim_quotes_end(s) == s.subrange(0, j),
    decreases s.len() - j,
{
    if j == s.len() {
        assert(s.subrange(0, s.len() as int) =~= s);
    } else {
        let t = s.drop_last();
        assert(forall|k: int| j <= k < t.len() ==> t[k] == '"');
        lemma_trim_quotes_end_index(t, j);
        assert(t.subrange(0, j) =~= s.subrange(0, j));
    }
}

/// Returns `s` with leading and trailing double quotes removed.
pub fn trim_quotes(s: &str) -> (r: &str)
    ensures
        r@ == trim_quotes_spec(s@),
{
    let n = s.unicode_len();
    let mut i: usize = 0;
    while i < n && s.get_char(i) == '"'
        invariant
            0 <= i <= n,
            forall|k: int| 0 <= k < i ==> s@[k] == '"',
        decreases n - i,
    {
        i = i + 1;
    }
    let mut j: usize = n;
    while j > i && s.get_char(j - 1) == '"'
        invariant
            i <= j <= n,
            forall|k: int| j <= k < n ==> s@[k] == '"',
        decreases j,
    {
        j = j - 1;
    }
    let r = s.substring_char(i, j);
    proof {
        lemma_trim_quotes_start_index(s@, i as int);
        let mid = s@.subrange(i as int, n as int);
        lemma_trim_quotes_end_index(mid, j - i);
        assert(mid.subrange(0, j - i) =~= s@.subrange(i as int, j as int));
    }
    r
}

// ---------------------------------------------------------------------------
// The os-release scan
// ---------------------------------------------------------------------------

/// The value of one `KEY=` line: what follows the key, unquoted.
pub open spec fn os_value_spec(t: Seq<char>, key_len: int) -> Seq<char> {
    trim_quotes_spec(t.subrange(key_len, t.len() as int))
}

/// One pass over the file's lines, carrying what has been found so far:
/// each line is trimmed; a `NAME=` line sets the name, any other
/// `VERSION_ID=` line sets the version; the scan stops as soon as both are
/// known.
pub open spec fn os_release_scan(
    lines: Seq<Seq<char>>,
    name: Option<Seq<char>>,
    version: Option<Seq<char>>,
) -> (Option<Seq<char>>, Option<Seq<char>>)
    decreases lines.len(),
{
    if lines.len() == 0 || (name is Some && version is Some) {
        (name, version)
    } else {
        let t = trim_spec(lines[0]);
        if starts_with_spec(t, "NAME="@) {
            os_release_scan(lines.drop_first(), Some(os_value_spec(t, 5)), version)
        } else if starts_with_spec(t, "VERSION_ID="@) {
            os_release_scan(lines.drop_first(), name, Some(os_value_spec(t, 11)))
        } else {
            os_release_scan(lines.drop_first(), name, version)
        }
    }
}

/// What an `os-release` text yields: the name and version when the scan
/// found both, nothing otherwise.
pub open spec fn parse_os_release_spec(content: Seq<char>) -> Option<(Seq<char>, Seq<char>)> {
    let r = os_release_scan(split_spec(content, '\n'), None, None);
    match r.0 {
        Some(n) => match r.1 {
            Some(v) => Some((n, v)),
            None => None,
        },
        None => None,
    }
}

/// Reads the OS name and version out of `os-release` text: the values of
/// the first `NAME=` and `VERSION_ID=` entries, unquoted; `None` unless
/// both are present.
pub fn parse_os_release(content: &str) -> (r: Option<(String, String)>)
    ensures
        match r {
            Some(p) => parse_os_release_spec(content@) == Some((p.0@, p.1@)),
            None => parse_os_release_spec(content@) is None,
        },
{
    let lines = text::split_str(content, '\n');
    let mut name: Option<String> = None;
    let mut version: Option<String> = None;
    let mut i: usize = 0;
    proof {
        assert(lines.deep_view().skip(0) =~= lines.deep_view());
    }
    while i < lines.len()
        invariant
            0 <= i <= lines.len(),
            os_release_scan(split_spec(content@, '\n'), None, None) == os_release_scan(
                lines.deep_view().skip(i as int),
                name.deep_view(),
                version.deep_view(),
            ),
        decreases lines.len() - i,
    {
        if name.is_some() && version.is_some() {
            break;
        }
        let ghost rest = lines.deep_view().skip(i as int);
        proof {
            assert(rest[0] == lines.deep_view()[i as int]);
            assert(rest.drop_first() =~= lines.deep_view().skip(i as int + 1));
        }
        let t = text::trim(lines[i].as_str());
        match text::strip_prefix(t, "NAME=") {
            Some(v) => {
                name = Some(String::from_str(trim_quotes(v)));
                proof {
                    reveal_strlit("NAME=");
                    assert(v@ =~= t@.subrange(5, t@.len() as int));
                }
            },
            None => {
                match text::strip_prefix(t, "VERSION_ID=") {
                    Some(v) => {
                        version = Some(String::from_str(trim_quotes(v)));
                        proof {
                            reveal_strlit("VERSION_ID=");
                            assert(v@ =~= t@.subrange(11, t@.len() as int));
                        }
                    },
                    None => {},
                }
            },
        }
        i = i + 1;
    }
    match (name, version) {
        (Some(n), Some(v)) => Some((n, v)),
        _ => None,
    }
}

} // verus!
