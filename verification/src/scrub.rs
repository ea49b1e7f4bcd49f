//! Parsing of a btrfs scrub status report: the report is a text of
//! `key: value` lines, and the summary is the scrub's status text together
//! with whether the error summary found no errors. Running the status
//! command is the caller's; everything from its output text on is here.

use crate::document::str_eq;
use vstd::prelude::*;

verus! {

/// The index of the first occurrence of `c` in `s` at or after `i`, or `-1`.
pub open spec fn char_index_from(s: Seq<char>, i: int, c: char) -> int
    decreases s.len() - i,
{
    if i < 0 || i >= s.len() {
        -1
    } else if s[i] == c {
        i
    } else {
        char_index_from(s, i + 1, c)
    }
}

/// Finds the first occurrence of `c` in `s`.
pub fn find_char(s: &str, c: char) -> (r: Option<usize>)
    ensures
        r matches Some(i) ==> 0 <= i < s@.len() && char_index_from(s@, 0, c) == i,
        r is None ==> char_index_from(s@, 0, c) < 0,
{
    let len = s.unicode_len();
    let mut i: usize = 0;
    while i < len
        invariant
            i <= len,
            len == s@.len(),
            char_index_from(s@, 0, c) == char_index_from(s@, i as int, c),
        decreases len - i,
    {
        if s.get_char(i) == c {
            return Some(i);
        }
        i += 1;
    }
    None
}

/// Whether `c` counts as trimmable whitespace: a space or a tab.
pub open spec fn is_space(c: char) -> bool {
    c == ' ' || c == '\t'
}

/// The index of the first non-whitespace character at or after `i`, or the
/// string's length.
pub open spec fn trim_start_idx(s: Seq<char>, i: int) -> int
    decreases s.len() - i,
{
    if i < 0 || i >= s.len() {
        s.len() as int
    } else if is_space(s[i]) {
        trim_start_idx(s, i + 1)
    } else {
        i
    }
}

/// The index just past the last non-whitespace character before `j`, or zero.
pub open spec fn trim_end_idx(s: Seq<char>, j: int) -> int
    decreases j,
{
    if j <= 0 {
        0
    } else if is_space(s[j - 1]) {
        trim_end_idx(s, j - 1)
    } else {
        j
    }
}

/// `s` with leading and trailing spaces and tabs removed.
pub open spec fn spec_trim(s: Seq<char>) -> Seq<char> {
    let start = trim_start_idx(s, 0);
    let end = trim_end_idx(s, s.len() as int);
    if start >= end {
        Seq::empty()
    } else {
        s.subrange(start, end)
    }
}

/// Removes leading and trailing spaces and tabs.
pub fn trim(s: &str) -> (r: String)
    ensures
        r@ == spec_trim(s@),
{
    let len = s.unicode_len();
    let mut start: usize = 0;
    loop
        invariant
            start <= len,
            len == s@.len(),
            trim_start_idx(s@, 0) == trim_start_idx(s@, start as int),
        ensures
            start <= len,
            len == s@.len(),
            start as int == trim_start_idx(s@, 0),
            trim_start_idx(s@, 0) == trim_start_idx(s@, start as int),
        decreases len - start,
    {
        if start >= len {
            break;
        }
        let c = s.get_char(start);
        if c != ' ' && c != '\t' {
            break;
        }
        start += 1;
    }
    proof {
        if start < len && is_space(s@[start as int]) {
            lemma_trim_start_ge(s@, start as int + 1);
        }
    }
    let mut end: usize = len;
    loop
        invariant
            start <= end <= len,
            len == s@.len(),
            start as int == trim_start_idx(s@, 0),
            start < len ==> !is_space(s@[start as int]),
            end > start || start == len,
            trim_end_idx(s@, len as int) == trim_end_idx(s@, end as int),
        ensures
            start <= end <= len,
            len == s@.len(),
            end == start || end as int == trim_end_idx(s@, len as int),
            end == start ==> start == len,
        decreases end,
    {
        if end <= start {
            break;
        }
        let c = s.get_char(end - 1);
        if c != ' ' && c != '\t' {
            break;
        }
        end -= 1;
    }
    if start >= end {
        let r = String::new();
        proof {
            lemma_trim_end_le(s@, len as int);
            assert(r@ =~= spec_trim(s@));
        }
        return r;
    }
    let piece = s.substring_char(start, end);
    String::from_str(piece)
}

proof fn lemma_trim_start_ge(s: Seq<char>, i: int)
    requires
        0 <= i <= s.len(),
    ensures
        trim_start_idx(s, i) >= i,
    decreases s.len() - i,
{
    if i < s.len() && is_space(s[i]) {
        lemma_trim_start_ge(s, i + 1);
    }
}

proof fn lemma_trim_end_le(s: Seq<char>, j: int)
    requires
        0 <= j,
    ensures
        trim_end_idx(s, j) <= j,
    decreases j,
{
    if j > 0 && is_space(s[j - 1]) {
        lemma_trim_end_le(s, j - 1);
    }
}

/// The `key: value` reading of a line: split at the first colon, both sides
/// trimmed; `None` when the line has no colon.
pub open spec fn spec_split_kv(line: Seq<char>) -> Option<(Seq<char>, Seq<char>)> {
    let c = char_index_from(line, 0, ':');
    if c < 0 {
        None
    } else {
        Some((spec_trim(line.subrange(0, c)), spec_trim(line.subrange(c + 1, line.len() as int))))
    }
}

/// Splits a `key: value` line at its first colon, trimming both sides.
pub fn split_kv(line: &str) -> (r: Option<(String, String)>)
    ensures
        r matches Some(kv) ==> spec_split_kv(line@) == Some((kv.0@, kv.1@)),
        r is None ==> spec_split_kv(line@) is None,
{
    match find_char(line, ':') {
        None => None,
        Some(c) => {
            let len = line.unicode_len();
            let head = line.substring_char(0, c);
            let tail = line.substring_char(c + 1, len);
            Some((trim(head), trim(tail)))
        },
    }
}

/// The lines of `s`, split at newline characters; every segment is kept.
pub open spec fn spec_split_lines(s: Seq<char>) -> Seq<Seq<char>>
    decreases s.len(),
{
    let c = char_index_from(s, 0, '\n');
    if c < 0 || c >= s.len() {
        seq![s]
    } else {
        seq![s.subrange(0, c)] + spec_split_lines(s.subrange(c + 1, s.len() as int))
    }
}

/// The views of a sequence of lines.
pub open spec fn lines_view(ls: Seq<String>) -> Seq<Seq<char>> {
    ls.map_values(|l: String| l@)
}

/// Splits a text into its lines at newline characters.
pub fn split_lines(s: &str) -> (r: Vec<String>)
    ensures
        lines_view(r@) == spec_split_lines(s@),
    decreases s@.len(),
{
    match find_char(s, '\n') {
        None => {
            let mut r: Vec<String> = Vec::new();
            r.push(String::from_str(s));
            proof {
                assert(lines_view(r@) =~= spec_split_lines(s@));
            }
            r
        },
        Some(c) => {
            let len = s.unicode_len();
            let head = s.substring_char(0, c);
            let tail = s.substring_char(c + 1, len);
            let rest = split_lines(tail);
            let mut r: Vec<String> = Vec::new();
            r.push(String::from_str(head));
            let mut k: usize = 0;
            while k < rest.len()
                invariant
                    k <= rest@.len(),
                    r@.len() == k + 1,
                    r@[0]@ == head@,
                    forall|m: int| 0 <= m < k ==> r@[m + 1] == rest@[m],
                decreases rest@.len() - k,
            {
                r.push(rest[k].clone());
                k += 1;
            }
            proof {
                assert(lines_view(r@) =~= spec_split_lines(s@));
            }
            r
        },
    }
}

/// The value of the last line reading `key: value` for the given key, the
/// later line winning when keys repeat; `None` when no line has the key.
pub open spec fn kv_lookup(lines: Seq<Seq<char>>, key: Seq<char>) -> Option<Seq<char>>
    decreases lines.len(),
{
    if lines.len() == 0 {
        None
    } else {
        match spec_split_kv(lines.last()) {
            Some(kv) => if kv.0 == key {
                Some(kv.1)
            } else {
                kv_lookup(lines.drop_last(), key)
            },
            None => kv_lookup(lines.drop_last(), key),
        }
    }
}

/// Finds the value of the last `key: value` line with the given key.
pub fn lookup_line_value(lines: &Vec<String>, key: &str) -> (r: Option<String>)
    ensures
        r matches Some(v) ==> kv_lookup(lines_view(lines@), key@) == Some(v@),
        r is None ==> kv_lookup(lines_view(lines@), key@) is None,
{
    let mut found: Option<String> = None;
    let mut i: usize = 0;
    proof {
        assert(lines_view(lines@.take(0)) =~= Seq::<Seq<char>>::empty());
    }
    while i < lines.len()
        invariant
            i <= lines@.len(),
            found matches Some(v) ==> kv_lookup(lines_view(lines@.take(i as int)), key@) == Some(
                v@,
            ),
            found is None ==> kv_lookup(lines_view(lines@.take(i as int)), key@) is None,
        decreases lines@.len() - i,
    {
        proof {
            assert(lines_view(lines@.take(i + 1)).drop_last() =~= lines_view(
                lines@.take(i as int),
            ));
            assert(lines_view(lines@.take(i + 1)).last() == lines@[i as int]@);
        }
        match split_kv(lines[i].as_str()) {
            Some((k, v)) => {
                if str_eq(k.as_str(), key) {
                    found = Some(v);
                }
            },
            None => {},
        }
        i += 1;
    }
    proof {
        assert(lines@.take(lines@.len() as int) =~= lines@);
    }
    found
}

/// The scrub summary read from a status report: only for a btrfs filesystem,
/// and only when the report has a `Status` and an `Error summary` line. A
/// finished scrub shows its `Scrub started` time, a running one reads
/// `in progress...`, any other status is shown as it stands; the flag says
/// whether the error summary found no errors.
pub open spec fn spec_scrub_summary(fs_type: Seq<char>, lines: Seq<Seq<char>>) -> Option<
    (Seq<char>, bool),
> {
    if fs_type != "btrfs"@ {
        None
    } else {
        match kv_lookup(lines, "Status"@) {
            None => None,
            Some(status) => {
                let resolved = if status == "finished"@ {
                    kv_lookup(lines, "Scrub started"@)
                } else if status == "running"@ {
                    Some("in progress..."@)
                } else {
                    Some(status)
                };
                match resolved {
                    None => None,
                    Some(txt) => match kv_lookup(lines, "Error summary"@) {
                        None => None,
                        Some(e) => Some((txt, e == "no errors found"@)),
                    },
                }
            },
        }
    }
}

/// Reads the scrub summary out of a status report's text.
pub fn scrub_summary(fs_type: &str, report: &str) -> (r: Option<(String, bool)>)
    ensures
        r matches Some(s) ==> spec_scrub_summary(fs_type@, spec_split_lines(report@)) == Some(
            (s.0@, s.1),
        ),
        r is None ==> spec_scrub_summary(fs_type@, spec_split_lines(report@)) is None,
{
    if !str_eq(fs_type, "btrfs") {
        return None;
    }
    let lines = split_lines(report);
    let status = match lookup_line_value(&lines, "Status") {
        None => {
            return None;
        },
        Some(s) => s,
    };
    let resolved = if str_eq(status.as_str(), "finished") {
        match lookup_line_value(&lines, "Scrub started") {
            None => {
                return None;
            },
            Some(t) => t,
        }
    } else if str_eq(status.as_str(), "running") {
        String::from_str("in progress...")
    } else {
        status
    };
    match lookup_line_value(&lines, "Error summary") {
        None => None,
        Some(e) => {
            let ok = str_eq(e.as_str(), "no errors found");
            Some((resolved, ok))
        },
    }
}

} // verus!
