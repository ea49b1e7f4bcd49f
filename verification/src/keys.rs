//! Case normalization for document keys and the section registry: the fixed,
//! closed set of recognized top-level section names.

use vstd::prelude::*;

verus! {

/// The closed set of recognized configuration sections.
#[derive(Clone, Copy, Debug, PartialEq, Eq, Structural)]
pub enum SectionKind {
    Banner,
    Docker,
    LastLogin,
    LastRun,
}

/// ASCII lowercasing of a single character; anything outside `A..=Z` is kept.
pub open spec fn lower_char(c: char) -> char {
    match c {
        'A' => 'a',
        'B' => 'b',
        'C' => 'c',
        'D' => 'd',
        'E' => 'e',
        'F' => 'f',
        'G' => 'g',
        'H' => 'h',
        'I' => 'i',
        'J' => 'j',
        'K' => 'k',
        'L' => 'l',
        'M' => 'm',
        'N' => 'n',
        'O' => 'o',
        'P' => 'p',
        'Q' => 'q',
        'R' => 'r',
        'S' => 's',
        'T' => 't',
        'U' => 'u',
        'V' => 'v',
        'W' => 'w',
        'X' => 'x',
        'Y' => 'y',
        'Z' => 'z',
        _ => c,
    }
}

/// ASCII lowercasing of a whole string, character by character.
pub open spec fn lower_seq(s: Seq<char>) -> Seq<char> {
    s.map_values(|c: char| lower_char(c))
}

/// Lowercasing twice is the same as lowercasing once.
pub proof fn lemma_lower_seq_idempotent(s: Seq<char>)
    ensures
        lower_seq(lower_seq(s)) == lower_seq(s),
{
    assert forall|i: int| 0 <= i < s.len() implies lower_seq(lower_seq(s))[i] == lower_seq(s)[i] by {
        assert(lower_char(lower_char(s[i])) == lower_char(s[i]));
    }
    assert(lower_seq(lower_seq(s)) =~= lower_seq(s));
}

fn lower_char_exec(c: char) -> (r: char)
    ensures
        r == lower_char(c),
{
    match c {
        'A' => 'a',
        'B' => 'b',
        'C' => 'c',
        'D' => 'd',
        'E' => 'e',
        'F' => 'f',
        'G' => 'g',
        'H' => 'h',
        'I' => 'i',
        'J' => 'j',
        'K' => 'k',
        'L' => 'l',
        'M' => 'm',
        'N' => 'n',
        'O' => 'o',
        'P' => 'p',
        'Q' => 'q',
        'R' => 'r',
        'S' => 's',
        'T' => 't',
        'U' => 'u',
        'V' => 'v',
        'W' => 'w',
        'X' => 'x',
        'Y' => 'y',
        'Z' => 'z',
        _ => c,
    }
}

/// Whether two strings are equal after ASCII case folding.
pub fn eq_ignore_ascii_case(a: &str, b: &str) -> (r: bool)
    ensures
        r == (lower_seq(a@) == lower_seq(b@)),
{
    let alen = a.unicode_len();
    let blen = b.unicode_len();
    if alen != blen {
        proof {
            assert(lower_seq(a@).len() != lower_seq(b@).len());
        }
        return false;
    }
    let mut i: usize = 0;
    while i < alen
        invariant
            alen == a@.len(),
            blen == b@.len(),
            alen == blen,
            i <= alen,
            forall|j: int| 0 <= j < i ==> lower_seq(a@)[j] == lower_seq(b@)[j],
        decreases alen - i,
    {
        let ca = a.get_char(i);
        let cb = b.get_char(i);
        if lower_char_exec(ca) != lower_char_exec(cb) {
            proof {
                assert(lower_seq(a@)[i as int] != lower_seq(b@)[i as int]);
            }
            return false;
        }
        i += 1;
    }
    proof {
        assert(lower_seq(a@) =~= lower_seq(b@));
    }
    true
}

/// The registry lookup as a mathematical function: the kind whose snake-case
/// name matches the key after ASCII case folding, if any.
pub open spec fn spec_kind_of(key: Seq<char>) -> Option<SectionKind> {
    if lower_seq(key) == lower_seq("banner"@) {
        Some(SectionKind::Banner)
    } else if lower_seq(key) == lower_seq("docker"@) {
        Some(SectionKind::Docker)
    } else if lower_seq(key) == lower_seq("last_login"@) {
        Some(SectionKind::LastLogin)
    } else if lower_seq(key) == lower_seq("last_run"@) {
        Some(SectionKind::LastRun)
    } else {
        None
    }
}

/// Section registry: maps a top-level document key to its section kind.
/// Matching is exact up to ASCII case; unknown keys yield `None`.
pub fn kind_of_key(key: &str) -> (r: Option<SectionKind>)
    ensures
        r == spec_kind_of(key@),
{
    if eq_ignore_ascii_case(key, "banner") {
        Some(SectionKind::Banner)
    } else if eq_ignore_ascii_case(key, "docker") {
        Some(SectionKind::Docker)
    } else if eq_ignore_ascii_case(key, "last_login") {
        Some(SectionKind::LastLogin)
    } else if eq_ignore_ascii_case(key, "last_run") {
        Some(SectionKind::LastRun)
    } else {
        None
    }
}

/// Key recognition is insensitive to ASCII case: folding the key first does
/// not change which section, if any, it names.
pub proof fn lemma_kind_of_case_insensitive(key: Seq<char>)
    ensures
        spec_kind_of(lower_seq(key)) == spec_kind_of(key),
{
    lemma_lower_seq_idempotent(key);
}

} // verus!
