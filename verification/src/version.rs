//! The version codec and the supportability check.
//!
//! OpenSSL reports its version in one of two textual formats: the
//! legacy hex literal of the 1.x line (`0x100020cfL`, a packed
//! major/minor/fix/patch/status number followed by a type suffix) and
//! the modern underscored triple of the 3.x line (`3_0_0`, packed as
//! `major<<28 | minor<<20 | patch<<4`). Either way the decoded value
//! is a single ordered integer: a larger value is a newer release.

use vstd::prelude::*;

use crate::errors::BuildError;
use crate::strutil::{
    all_dec,
    all_hex,
    is_hex_digit,
    lemma_numeral_val_nonneg,
    numeral_val,
    parse_numeral,
    split_char,
    split_spec,
};

verus! {

/// First supported release: 1.1.1, in the legacy packing.
pub const VERSION_1_1_1: u64 = 0x1_01_01_00_0;

/// 1.1.1b, the first release with the no-atexit initialization option.
pub const VERSION_1_1_1B: u64 = 0x1_01_01_02_0;

/// 1.1.1c.
pub const VERSION_1_1_1C: u64 = 0x1_01_01_03_0;

/// First release of the 3.x major line.
pub const VERSION_3_0_0: u64 = 0x3_00_00_00_0;

/// First value past every supported major line.
pub const VERSION_TOO_NEW: u64 = 0x4_00_00_00_0;

/// The supported major lines.
#[derive(Clone, Copy, Debug, PartialEq, Eq, Structural)]
pub enum Version {
    Openssl11x,
    Openssl30x,
}

/// The error every unsupported version produces.
pub fn version_error() -> (r: BuildError)
    ensures
        r == BuildError::UnsupportedVersion,
{
    BuildError::UnsupportedVersion
}

/// Exactly one class per decoded version: too old and too new are
/// fatal, and each supported major line is its own class. Thresholds
/// are inclusive: a version equal to a threshold is supported.
pub fn classify_version(v: u64) -> (r: Result<Version, BuildError>)
    ensures
        v >= VERSION_TOO_NEW ==> r == Err::<Version, BuildError>(BuildError::UnsupportedVersion),
        VERSION_3_0_0 <= v < VERSION_TOO_NEW ==> r == Ok::<Version, BuildError>(
            Version::Openssl30x,
        ),
        VERSION_1_1_1 <= v < VERSION_3_0_0 ==> r == Ok::<Version, BuildError>(Version::Openssl11x),
        v < VERSION_1_1_1 ==> r == Err::<Version, BuildError>(BuildError::UnsupportedVersion),
{
    if v >= VERSION_TOO_NEW {
        Err(version_error())
    } else if v >= VERSION_3_0_0 {
        Ok(Version::Openssl30x)
    } else if v >= VERSION_1_1_1 {
        Ok(Version::Openssl11x)
    } else {
        Err(version_error())
    }
}

/// `s` without its trailing run of non-hex characters, the way a
/// legacy version literal drops its `L`/`UL` type suffix.
pub open spec fn strip_type_suffix(s: Seq<char>) -> Seq<char>
    decreases s.len(),
{
    if s.len() > 0 && !is_hex_digit(s[s.len() - 1]) {
        strip_type_suffix(s.subrange(0, s.len() - 1))
    } else {
        s
    }
}

/// A well-formed legacy version literal: `0x`, then hex digits whose
/// value fits `u64`, then an arbitrary non-hex type suffix.
pub open spec fn legacy_ok(s: Seq<char>) -> bool {
    &&& s.len() >= 2
    &&& s[0] == '0'
    &&& s[1] == 'x'
    &&& strip_type_suffix(s.subrange(2, s.len() as int)).len() > 0
    &&& all_hex(strip_type_suffix(s.subrange(2, s.len() as int)))
    &&& numeral_val(strip_type_suffix(s.subrange(2, s.len() as int)), 16) <= u64::MAX
}

/// The value a well-formed legacy literal denotes.
pub open spec fn legacy_val(s: Seq<char>) -> int {
    numeral_val(strip_type_suffix(s.subrange(2, s.len() as int)), 16)
}

/// Hex-digit test for one character.
fn is_hex_char(c: char) -> (r: bool)
    ensures
        r == is_hex_digit(c),
{
    ('0' <= c && c <= '9') || ('a' <= c && c <= 'f') || ('A' <= c && c <= 'F')
}

/// Decode a legacy-format version literal such as `0x100020cfL`: the
/// `0x` marker is cut off, the trailing type suffix is stripped, and
/// the remainder is read base-16.
pub fn parse_version(text: &str) -> (r: Result<u64, BuildError>)
    ensures
        r is Ok <==> legacy_ok(text@),
        r matches Ok(v) ==> v as int == legacy_val(text@),
        r is Err ==> r == Err::<u64, BuildError>(BuildError::MalformedVersion),
{
    let len: usize = text.unicode_len();
    if len < 2 || text.get_char(0) != '0' || text.get_char(1) != 'x' {
        return Err(BuildError::MalformedVersion);
    }
    let body: &str = text.substring_char(2, len);
    let blen: usize = body.unicode_len();
    proof {
        assert(body@.subrange(0, blen as int) =~= body@);
    }
    let mut e: usize = blen;
    while e > 0 && !is_hex_char(body.get_char(e - 1))
        invariant
            0 <= e <= blen,
            blen == body@.len(),
            strip_type_suffix(body@) == strip_type_suffix(body@.subrange(0, e as int)),
        decreases e,
    {
        proof {
            assert(body@.subrange(0, e as int)[e - 1] == body@[e - 1]);
            assert(body@.subrange(0, e as int).subrange(0, e - 1) =~= body@.subrange(0, e - 1));
        }
        e = e - 1;
    }
    proof {
        assert(body@.subrange(0, blen as int) =~= body@);
        assert(strip_type_suffix(body@) == body@.subrange(0, e as int));
    }
    let trimmed: &str = body.substring_char(0, e);
    match parse_numeral(trimmed, true) {
        Some(v) => Ok(v),
        None => Err(BuildError::MalformedVersion),
    }
}

/// The packed form of a modern (3.x-style) version triple.
pub open spec fn modern_pack(major: int, minor: int, patch: int) -> int {
    major * 0x1000_0000 + minor * 0x10_0000 + patch * 16
}

/// One decimal component of a modern version string.
pub open spec fn dec_component_ok(p: Seq<char>) -> bool {
    p.len() > 0 && all_dec(p) && numeral_val(p, 10) <= u64::MAX
}

/// A well-formed modern version string: exactly three decimal
/// components whose values fit their fields of the packed layout.
pub open spec fn modern_ok(s: Seq<char>) -> bool {
    let parts = split_spec(s, '_');
    &&& parts.len() == 3
    &&& dec_component_ok(parts[0])
    &&& dec_component_ok(parts[1])
    &&& dec_component_ok(parts[2])
    &&& numeral_val(parts[0], 10) < 0x10_0000_0000
    &&& numeral_val(parts[1], 10) < 0x100
    &&& numeral_val(parts[2], 10) < 0x1_0000
}

/// The value a well-formed modern version string denotes.
pub open spec fn modern_val(s: Seq<char>) -> int {
    let parts = split_spec(s, '_');
    modern_pack(numeral_val(parts[0], 10), numeral_val(parts[1], 10), numeral_val(parts[2], 10))
}

/// Decode a modern-format version string such as `3_0_0` into
/// `major<<28 | minor<<20 | patch<<4`.
pub fn parse_new_version(text: &str) -> (r: Result<u64, BuildError>)
    ensures
        r is Ok <==> modern_ok(text@),
        r matches Ok(v) ==> v as int == modern_val(text@),
        r is Err ==> r == Err::<u64, BuildError>(BuildError::MalformedVersion),
{
    let parts: Vec<&str> = split_char(text, '_');
    if parts.len() != 3 {
        return Err(BuildError::MalformedVersion);
    }
    proof {
        assert(parts.deep_view()[0] == parts@[0]@);
        assert(parts.deep_view()[1] == parts@[1]@);
        assert(parts.deep_view()[2] == parts@[2]@);
    }
    let major: u64 = match parse_numeral(parts[0], false) {
        Some(v) => v,
        None => {
            return Err(BuildError::MalformedVersion);
        },
    };
    let minor: u64 = match parse_numeral(parts[1], false) {
        Some(v) => v,
        None => {
            return Err(BuildError::MalformedVersion);
        },
    };
    let patch: u64 = match parse_numeral(parts[2], false) {
        Some(v) => v,
        None => {
            return Err(BuildError::MalformedVersion);
        },
    };
    if major >= 0x10_0000_0000 || minor >= 0x100 || patch >= 0x1_0000 {
        return Err(BuildError::MalformedVersion);
    }
    Ok(major * 0x1000_0000 + minor * 0x10_0000 + patch * 16)
}

/// The packed form of a legacy version: `0xMNNFFPPS`, one nibble of
/// major, a byte each of minor, fix and patch, one nibble of status.
pub open spec fn legacy_pack(major: int, minor: int, fix: int, patch: int, status: int) -> int {
    major * 0x1000_0000 + minor * 0x10_0000 + fix * 0x1000 + patch * 16 + status
}

/// The fields of a legacy version lie inside their nibble-and-byte
/// layout.
pub open spec fn legacy_fields_ok(major: int, minor: int, fix: int, patch: int, status: int) -> bool {
    &&& 0 <= major
    &&& 0 <= minor < 0x100
    &&& 0 <= fix < 0x100
    &&& 0 <= patch < 0x100
    &&& 0 <= status < 0x10
}

/// The fields of a modern version lie inside their fields of the
/// packed layout.
pub open spec fn modern_fields_ok(major: int, minor: int, patch: int) -> bool {
    &&& 0 <= major
    &&& 0 <= minor < 0x100
    &&& 0 <= patch < 0x1_0000
}

/// A legacy packed value stays inside its major line's band.
pub proof fn lemma_legacy_band(major: int, minor: int, fix: int, patch: int, status: int)
    requires
        legacy_fields_ok(major, minor, fix, patch, status),
    ensures
        major * 0x1000_0000 <= legacy_pack(major, minor, fix, patch, status) < (major + 1)
            * 0x1000_0000,
{
}

/// A modern packed value stays inside its major line's band.
pub proof fn lemma_modern_band(major: int, minor: int, patch: int)
    requires
        modern_fields_ok(major, minor, patch),
    ensures
        major * 0x1000_0000 <= modern_pack(major, minor, patch) < (major + 1) * 0x1000_0000,
{
}

/// Decoded modern versions order exactly as their release triples do:
/// a chronologically earlier release packs to a strictly smaller
/// integer.
pub proof fn lemma_modern_monotonic(
    major1: int,
    minor1: int,
    patch1: int,
    major2: int,
    minor2: int,
    patch2: int,
)
    requires
        modern_fields_ok(major1, minor1, patch1),
        modern_fields_ok(major2, minor2, patch2),
        major1 < major2 || (major1 == major2 && minor1 < minor2) || (major1 == major2 && minor1
            == minor2 && patch1 < patch2),
    ensures
        modern_pack(major1, minor1, patch1) < modern_pack(major2, minor2, patch2),
{
    if major1 < major2 {
        lemma_modern_band(major1, minor1, patch1);
        lemma_modern_band(major2, minor2, patch2);
        assert((major1 + 1) * 0x1000_0000 <= major2 * 0x1000_0000) by (nonlinear_arith)
            requires
                major1 + 1 <= major2,
        ;
    }
}

/// Decoded legacy versions order exactly as their release fields do.
pub proof fn lemma_legacy_monotonic(
    major1: int,
    minor1: int,
    fix1: int,
    patch1: int,
    status1: int,
    major2: int,
    minor2: int,
    fix2: int,
    patch2: int,
    status2: int,
)
    requires
        legacy_fields_ok(major1, minor1, fix1, patch1, status1),
        legacy_fields_ok(major2, minor2, fix2, patch2, status2),
        major1 < major2 || (major1 == major2 && (minor1 < minor2 || (minor1 == minor2 && (fix1
            < fix2 || (fix1 == fix2 && (patch1 < patch2 || (patch1 == patch2 && status1
            < status2))))))),
    ensures
        legacy_pack(major1, minor1, fix1, patch1, status1) < legacy_pack(
            major2,
            minor2,
            fix2,
            patch2,
            status2,
        ),
{
    if major1 < major2 {
        lemma_legacy_band(major1, minor1, fix1, patch1, status1);
        lemma_legacy_band(major2, minor2, fix2, patch2, status2);
        assert((major1 + 1) * 0x1000_0000 <= major2 * 0x1000_0000) by (nonlinear_arith)
            requires
                major1 + 1 <= major2,
        ;
    }
}

/// The two formats agree on ordering across major lines: any release
/// of an earlier major line decodes below any release of a later one,
/// whichever format each side was written in. The formats never meet
/// inside one major line (the library switched format exactly at the
/// 3.x boundary), so differing majors is the cross-format case.
pub proof fn lemma_cross_format_monotonic(
    lmajor: int,
    lminor: int,
    lfix: int,
    lpatch: int,
    lstatus: int,
    mmajor: int,
    mminor: int,
    mpatch: int,
)
    requires
        legacy_fields_ok(lmajor, lminor, lfix, lpatch, lstatus),
        modern_fields_ok(mmajor, mminor, mpatch),
    ensures
        lmajor < mmajor ==> legacy_pack(lmajor, lminor, lfix, lpatch, lstatus) < modern_pack(
            mmajor,
            mminor,
            mpatch,
        ),
        mmajor < lmajor ==> modern_pack(mmajor, mminor, mpatch) < legacy_pack(
            lmajor,
            lminor,
            lfix,
            lpatch,
            lstatus,
        ),
{
    lemma_legacy_band(lmajor, lminor, lfix, lpatch, lstatus);
    lemma_modern_band(mmajor, mminor, mpatch);
    if lmajor < mmajor {
        assert((lmajor + 1) * 0x1000_0000 <= mmajor * 0x1000_0000) by (nonlinear_arith)
            requires
                lmajor + 1 <= mmajor,
        ;
    }
    if mmajor < lmajor {
        assert((mmajor + 1) * 0x1000_0000 <= lmajor * 0x1000_0000) by (nonlinear_arith)
            requires
                mmajor + 1 <= lmajor,
        ;
    }
}

/// Two well-formed modern version strings decode in the order of
/// their release triples: the earlier release's string decodes to the
/// strictly smaller integer.
pub proof fn lemma_modern_decode_monotonic(a: Seq<char>, b: Seq<char>)
    requires
        modern_ok(a),
        modern_ok(b),
        ({
            let pa = split_spec(a, '_');
            let pb = split_spec(b, '_');
            let (ma, na, qa) = (numeral_val(pa[0], 10), numeral_val(pa[1], 10), numeral_val(
                pa[2],
                10,
            ));
            let (mb, nb, qb) = (numeral_val(pb[0], 10), numeral_val(pb[1], 10), numeral_val(
                pb[2],
                10,
            ));
            ma < mb || (ma == mb && na < nb) || (ma == mb && na == nb && qa < qb)
        }),
    ensures
        modern_val(a) < modern_val(b),
{
    let pa = split_spec(a, '_');
    let pb = split_spec(b, '_');
    lemma_numeral_val_nonneg(pa[0], 10);
    lemma_numeral_val_nonneg(pa[1], 10);
    lemma_numeral_val_nonneg(pa[2], 10);
    lemma_numeral_val_nonneg(pb[0], 10);
    lemma_numeral_val_nonneg(pb[1], 10);
    lemma_numeral_val_nonneg(pb[2], 10);
    lemma_modern_monotonic(
        numeral_val(pa[0], 10),
        numeral_val(pa[1], 10),
        numeral_val(pa[2], 10),
        numeral_val(pb[0], 10),
        numeral_val(pb[1], 10),
        numeral_val(pb[2], 10),
    );
}

/// Appending non-hex characters never changes what the suffix strip
/// leaves behind.
pub proof fn lemma_strip_appended_suffix(s: Seq<char>, t: Seq<char>)
    requires
        forall|k: int| 0 <= k < t.len() ==> !is_hex_digit(#[trigger] t[k]),
    ensures
        strip_type_suffix(s + t) == strip_type_suffix(s),
    decreases t.len(),
{
    if t.len() == 0 {
        assert(s + t =~= s);
    } else {
        let u = s + t;
        assert(u[u.len() - 1] == t[t.len() - 1]);
        assert(u.subrange(0, u.len() - 1) =~= s + t.subrange(0, t.len() - 1));
        lemma_strip_appended_suffix(s, t.subrange(0, t.len() - 1));
    }
}

/// A trailing non-hex type suffix of any length is irrelevant to a
/// legacy decode: the literal with the suffix is well formed exactly
/// when the bare literal is, and denotes the same value.
pub proof fn lemma_legacy_suffix_irrelevant(s: Seq<char>, t: Seq<char>)
    requires
        s.len() >= 2,
        forall|k: int| 0 <= k < t.len() ==> !is_hex_digit(#[trigger] t[k]),
    ensures
        legacy_ok(s + t) == legacy_ok(s),
        legacy_ok(s) ==> legacy_val(s + t) == legacy_val(s),
{
    let u = s + t;
    assert(u.subrange(2, u.len() as int) =~= s.subrange(2, s.len() as int) + t);
    lemma_strip_appended_suffix(s.subrange(2, s.len() as int), t);
    assert(u[0] == s[0]);
    assert(u[1] == s[1]);
}

} // verus!
