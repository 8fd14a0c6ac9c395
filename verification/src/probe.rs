//! Parsing of the macro-expanded probe output.
//!
//! The probe source emits sentinel tokens built from the header's own
//! macros. Scanning the expanded text line by line: a line beginning
//! with the legacy version sentinel carries a legacy-format version
//! string, one beginning with the modern version sentinel carries a
//! modern-format version string (the last such line wins), and one
//! beginning with the config sentinel contributes an entry to the
//! configuration flag set. Everything else is compiler detritus and is
//! ignored.

use vstd::prelude::*;

use crate::errors::BuildError;
use crate::strutil::{split_char, split_spec, starts_with, starts_with_spec, trim, trim_spec};
use crate::version::{
    legacy_ok,
    legacy_val,
    modern_ok,
    modern_val,
    parse_new_version,
    parse_version,
};

verus! {

/// The trimmed lines of the expanded probe text.
pub open spec fn lines_spec(text: Seq<char>) -> Seq<Seq<char>> {
    split_spec(text, '\n').map_values(|l: Seq<char>| trim_spec(l))
}

/// The line carries a legacy-format version string.
pub open spec fn is_legacy_line(l: Seq<char>) -> bool {
    starts_with_spec(l, "RUST_VERSION_OPENSSL_"@)
}

/// The line carries a modern-format version string.
pub open spec fn is_modern_line(l: Seq<char>) -> bool {
    !is_legacy_line(l) && starts_with_spec(l, "RUST_VERSION_NEW_OPENSSL_"@)
}

/// The line contributes a configuration flag.
pub open spec fn is_conf_line(l: Seq<char>) -> bool {
    !is_legacy_line(l) && !is_modern_line(l) && starts_with_spec(l, "RUST_CONF_"@)
}

/// The line reports a version, in either format.
pub open spec fn is_version_line(l: Seq<char>) -> bool {
    is_legacy_line(l) || is_modern_line(l)
}

/// What follows the legacy version sentinel.
pub open spec fn legacy_rest(l: Seq<char>) -> Seq<char> {
    l.subrange("RUST_VERSION_OPENSSL_"@.len() as int, l.len() as int)
}

/// What follows the modern version sentinel.
pub open spec fn modern_rest(l: Seq<char>) -> Seq<char> {
    l.subrange("RUST_VERSION_NEW_OPENSSL_"@.len() as int, l.len() as int)
}

/// What follows the config sentinel.
pub open spec fn conf_rest(l: Seq<char>) -> Seq<char> {
    l.subrange("RUST_CONF_"@.len() as int, l.len() as int)
}

/// A version line's text decodes under its format.
pub open spec fn line_version_ok(l: Seq<char>) -> bool {
    if is_legacy_line(l) {
        legacy_ok(legacy_rest(l))
    } else if is_modern_line(l) {
        modern_ok(modern_rest(l))
    } else {
        true
    }
}

/// The value a version line decodes to.
pub open spec fn line_version_val(l: Seq<char>) -> int {
    if is_legacy_line(l) {
        legacy_val(legacy_rest(l))
    } else {
        modern_val(modern_rest(l))
    }
}

/// Every version line in the scan decodes; a single malformed one is
/// fatal even when a later line would supersede it.
pub open spec fn all_version_lines_ok(lines: Seq<Seq<char>>) -> bool {
    forall|i: int| 0 <= i < lines.len() ==> line_version_ok(#[trigger] lines[i])
}

/// Index of the last version line; -1 when there is none.
pub open spec fn last_version_idx(lines: Seq<Seq<char>>) -> int
    decreases lines.len(),
{
    if lines.len() == 0 {
        -1
    } else if is_version_line(lines[lines.len() - 1]) {
        lines.len() - 1
    } else {
        last_version_idx(lines.subrange(0, lines.len() - 1))
    }
}

pub proof fn lemma_last_version_idx(s: Seq<Seq<char>>)
    ensures
        -1 <= last_version_idx(s) < s.len(),
        last_version_idx(s) >= 0 ==> is_version_line(s[last_version_idx(s)]),
    decreases s.len(),
{
    if s.len() > 0 && !is_version_line(s[s.len() - 1]) {
        lemma_last_version_idx(s.subrange(0, s.len() - 1));
    }
}

/// `f` is one of the configuration flags the scan reports.
pub open spec fn conf_flag(lines: Seq<Seq<char>>, f: Seq<char>) -> bool {
    exists|i: int| 0 <= i < lines.len() && is_conf_line(#[trigger] lines[i]) && conf_rest(lines[i]) == f
}

/// The configuration flags of the scan, in first-appearance order,
/// without duplicates.
pub open spec fn conf_flags_seq(lines: Seq<Seq<char>>) -> Seq<Seq<char>>
    decreases lines.len(),
{
    if lines.len() == 0 {
        Seq::<Seq<char>>::empty()
    } else {
        let p = conf_flags_seq(lines.subrange(0, lines.len() - 1));
        let l = lines[lines.len() - 1];
        if is_conf_line(l) && !p.contains(conf_rest(l)) {
            p.push(conf_rest(l))
        } else {
            p
        }
    }
}

/// The flag list holds exactly the flags of the scan, each once.
pub proof fn lemma_conf_flags_seq(lines: Seq<Seq<char>>)
    ensures
        forall|f: Seq<char>| conf_flags_seq(lines).contains(f) == conf_flag(lines, f),
        forall|j: int, k: int|
            0 <= j < k < conf_flags_seq(lines).len() ==> conf_flags_seq(lines)[j]
                != conf_flags_seq(lines)[k],
    decreases lines.len(),
{
    if lines.len() > 0 {
        let prefix = lines.subrange(0, lines.len() - 1);
        let l = lines[lines.len() - 1];
        lemma_conf_flags_seq(prefix);
        let p = conf_flags_seq(prefix);
        let s = conf_flags_seq(lines);
        assert forall|f: Seq<char>| s.contains(f) == conf_flag(lines, f) by {
            if s.contains(f) {
                let k = choose|k: int| 0 <= k < s.len() && s[k] == f;
                if k < p.len() {
                    assert(p[k] == f);
                    assert(conf_flags_seq(prefix).contains(f));
                    assert(conf_flag(prefix, f));
                    let i = choose|i: int|
                        0 <= i < prefix.len() && is_conf_line(#[trigger] prefix[i]) && conf_rest(
                            prefix[i],
                        ) == f;
                    assert(is_conf_line(lines[i]) && conf_rest(lines[i]) == f);
                } else {
                    assert(is_conf_line(lines[lines.len() - 1]) && conf_rest(
                        lines[lines.len() - 1],
                    ) == f);
                }
            }
            if conf_flag(lines, f) {
                let i = choose|i: int|
                    0 <= i < lines.len() && is_conf_line(#[trigger] lines[i]) && conf_rest(
                        lines[i],
                    ) == f;
                if i < lines.len() - 1 {
                    assert(is_conf_line(prefix[i]) && conf_rest(prefix[i]) == f);
                    assert(conf_flag(prefix, f));
                    assert(conf_flags_seq(prefix).contains(f));
                    let k = choose|k: int| 0 <= k < p.len() && p[k] == f;
                    assert(s[k] == f);
                } else {
                    if p.contains(conf_rest(l)) {
                        let k = choose|k: int| 0 <= k < p.len() && p[k] == f;
                        assert(s[k] == f);
                    } else {
                        assert(s[s.len() - 1] == f);
                    }
                }
            }
        }
        assert forall|j: int, k: int| 0 <= j < k < s.len() implies s[j] != s[k] by {
            if k < p.len() {
            } else if s.len() > p.len() {
                assert(!p.contains(conf_rest(l)));
                if j < p.len() && s[j] == s[k] {
                    assert(p.contains(conf_rest(l)));
                }
            }
        }
    }
}

/// The flag set is a function of which lines appear, not of their
/// order: two probe outputs whose line sets agree report the same
/// configuration flags.
pub proof fn lemma_conf_flags_order_independent(l1: Seq<Seq<char>>, l2: Seq<Seq<char>>)
    requires
        forall|l: Seq<char>| l1.contains(l) == l2.contains(l),
    ensures
        forall|f: Seq<char>| conf_flag(l1, f) == conf_flag(l2, f),
{
    assert forall|f: Seq<char>| conf_flag(l1, f) == conf_flag(l2, f) by {
        if conf_flag(l1, f) {
            let i = choose|i: int|
                0 <= i < l1.len() && is_conf_line(#[trigger] l1[i]) && conf_rest(l1[i]) == f;
            assert(l1.contains(l1[i]));
            let j = choose|j: int| 0 <= j < l2.len() && l2[j] == l1[i];
            assert(is_conf_line(l2[j]) && conf_rest(l2[j]) == f);
        }
        if conf_flag(l2, f) {
            let i = choose|i: int|
                0 <= i < l2.len() && is_conf_line(#[trigger] l2[i]) && conf_rest(l2[i]) == f;
            assert(l2.contains(l2[i]));
            let j = choose|j: int| 0 <= j < l1.len() && l1[j] == l2[i];
            assert(is_conf_line(l1[j]) && conf_rest(l1[j]) == f);
        }
    }
}

/// The reported version matches the last version line of the scan.
pub open spec fn version_matches(lines: Seq<Seq<char>>, version: Option<u64>) -> bool {
    if last_version_idx(lines) == -1 {
        version is None
    } else {
        version matches Some(v) && v as int == line_version_val(lines[last_version_idx(lines)])
    }
}

/// What a successful scan of the probe output yields: the decoded
/// version, if any version line appeared, and the configuration flags
/// in first-appearance order without duplicates.
pub struct ProbeScan<'a> {
    pub version: Option<u64>,
    pub flags: Vec<&'a str>,
}

/// Membership test among the collected flags.
fn flags_contain(v: &Vec<&str>, s: &str) -> (r: bool)
    ensures
        r == v.deep_view().contains(s@),
{
    let mut k: usize = 0;
    while k < v.len()
        invariant
            0 <= k <= v.deep_view().len(),
            v.deep_view().len() == v@.len(),
            forall|j: int| 0 <= j < k ==> v.deep_view()[j] != s@,
        decreases v@.len() - k,
    {
        if crate::strutil::str_eq(v[k], s) {
            proof {
                assert(v.deep_view()[k as int] == s@);
            }
            return true;
        }
        k = k + 1;
    }
    false
}

/// Scan the expanded probe text: decode the version reported by the
/// last version-sentinel line and collect the config-sentinel flags,
/// deduplicated, in first-appearance order. A version line that
/// decodes under neither format is fatal.
pub fn extract<'a>(text: &'a str) -> (r: Result<ProbeScan<'a>, BuildError>)
    ensures
        r is Ok <==> all_version_lines_ok(lines_spec(text@)),
        r matches Ok(scan) ==> version_matches(lines_spec(text@), scan.version),
        r matches Ok(scan) ==> scan.flags.deep_view() == conf_flags_seq(lines_spec(text@)),
        r is Err ==> r == Err::<ProbeScan<'a>, BuildError>(BuildError::MalformedVersion),
{
    let raw: Vec<&str> = split_char(text, '\n');
    let ghost lines = lines_spec(text@);
    proof {
        assert(lines.len() == raw.deep_view().len());
    }
    let mut version: Option<u64> = None;
    let mut flags: Vec<&'a str> = Vec::new();
    let mut i: usize = 0;
    while i < raw.len()
        invariant
            0 <= i <= raw@.len(),
            raw.deep_view() == split_spec(text@, '\n'),
            lines == lines_spec(text@),
            lines.len() == raw@.len(),
            forall|j: int| 0 <= j < lines.len() ==> lines[j] == trim_spec(raw.deep_view()[j]),
            all_version_lines_ok(lines.subrange(0, i as int)),
            version_matches(lines.subrange(0, i as int), version),
            flags.deep_view() == conf_flags_seq(lines.subrange(0, i as int)),
        decreases raw@.len() - i,
    {
        let ghost prefix = lines.subrange(0, i as int);
        let ghost prefix1 = lines.subrange(0, i + 1);
        proof {
            assert(prefix1.subrange(0, prefix1.len() - 1) =~= prefix);
            assert(prefix1[prefix1.len() - 1] == lines[i as int]);
        }
        let line: &str = trim(raw[i]);
        proof {
            assert(raw.deep_view()[i as int] == raw@[i as int]@);
            assert(line@ == lines[i as int]);
        }
        let llen: usize = line.unicode_len();
        if starts_with(line, "RUST_VERSION_OPENSSL_") {
            let plen: usize = "RUST_VERSION_OPENSSL_".unicode_len();
            let rest: &str = line.substring_char(plen, llen);
            proof {
                assert(rest@ == legacy_rest(lines[i as int]));
            }
            match parse_version(rest) {
                Ok(v) => {
                    version = Some(v);
                    proof {
                        assert(last_version_idx(prefix1) == i);
                        assert(forall|j: int| 0 <= j < i ==> prefix1[j] == prefix[j]);
                    }
                },
                Err(e) => {
                    proof {
                        assert(!line_version_ok(lines[i as int]));
                    }
                    return Err(e);
                },
            }
        } else if starts_with(line, "RUST_VERSION_NEW_OPENSSL_") {
            let plen: usize = "RUST_VERSION_NEW_OPENSSL_".unicode_len();
            let rest: &str = line.substring_char(plen, llen);
            proof {
                assert(rest@ == modern_rest(lines[i as int]));
            }
            match parse_new_version(rest) {
                Ok(v) => {
                    version = Some(v);
                    proof {
                        assert(last_version_idx(prefix1) == i);
                        assert(forall|j: int| 0 <= j < i ==> prefix1[j] == prefix[j]);
                    }
                },
                Err(e) => {
                    proof {
                        assert(!line_version_ok(lines[i as int]));
                    }
                    return Err(e);
                },
            }
        } else if starts_with(line, "RUST_CONF_") {
            let plen: usize = "RUST_CONF_".unicode_len();
            let rest: &str = line.substring_char(plen, llen);
            proof {
                assert(rest@ == conf_rest(lines[i as int]));
            }
            if !flags_contain(&flags, rest) {
                let ghost old_flags = flags.deep_view();
                flags.push(rest);
                proof {
                    assert(flags.deep_view() =~= old_flags.push(rest@));
                }
            }
        }
        proof {
            if !is_version_line(lines[i as int]) {
                assert(last_version_idx(prefix1) == last_version_idx(prefix));
            }
            lemma_last_version_idx(prefix);
            lemma_last_version_idx(prefix1);
            assert(forall|j: int| 0 <= j < i ==> prefix1[j] == prefix[j]);
        }
        i = i + 1;
    }
    proof {
        assert(lines.subrange(0, lines.len() as int) =~= lines);
    }
    Ok(ProbeScan { version, flags })
}

} // verus!
