//! Environment-key resolution for cross-compiled builds.
//!
//! Every override is looked up first under a target-prefixed name
//! (the target triple uppercased, with `-` turned into `_`, then an
//! underscore, then the bare name) and only then under the bare name,
//! so a cross build can set per-target values without clobbering the
//! host's.

use vstd::prelude::*;

verus! {

/// How one character of a target triple appears in the prefixed key.
pub open spec fn env_key_char(c: char) -> char {
    if c == '-' {
        '_'
    } else if 'a' <= c && c <= 'z' {
        (((c as u32) - 32) as char)
    } else {
        c
    }
}

/// Uppercase one ASCII character, mapping `-` to `_`.
fn env_key_char_x(c: char) -> (r: char)
    ensures
        r == env_key_char(c),
{
    if c == '-' {
        '_'
    } else if 'a' <= c && c <= 'z' {
        let u: u32 = c as u32;
        let up: u32 = u - 32;
        proof {
            vstd::utf8::char_u32_cast(c, u);
        }
        char_from_u32(up)
    } else {
        c
    }
}

/// One scalar in the ASCII uppercase range, as a character.
fn char_from_u32(u: u32) -> (r: char)
    requires
        'A' as u32 <= u <= 'Z' as u32,
    ensures
        r == (u as char),
{
    let b: u8 = u as u8;
    b as char
}

/// The prefixed form of `name` for `target`: the triple uppercased
/// with `-` as `_`, an underscore, then the bare name.
pub open spec fn env_key_spec(target: Seq<char>, name: Seq<char>) -> Seq<char> {
    target.map_values(|c: char| env_key_char(c)) + seq!['_'] + name
}

/// Build the target-prefixed environment key.
pub fn env_key(target: &str, name: &str) -> (r: Vec<char>)
    ensures
        r@ == env_key_spec(target@, name@),
{
    let tlen: usize = target.unicode_len();
    let nlen: usize = name.unicode_len();
    let mut out: Vec<char> = Vec::new();
    let mut i: usize = 0;
    while i < tlen
        invariant
            0 <= i <= tlen,
            tlen == target@.len(),
            out@ =~= target@.subrange(0, i as int).map_values(|c: char| env_key_char(c)),
        decreases tlen - i,
    {
        out.push(env_key_char_x(target.get_char(i)));
        proof {
            assert(target@.subrange(0, i + 1).map_values(|c: char| env_key_char(c))
                =~= target@.subrange(0, i as int).map_values(|c: char| env_key_char(c)).push(
                env_key_char(target@[i as int]),
            ));
        }
        i = i + 1;
    }
    proof {
        assert(target@.subrange(0, tlen as int) =~= target@);
    }
    out.push('_');
    let mut j: usize = 0;
    while j < nlen
        invariant
            0 <= j <= nlen,
            nlen == name@.len(),
            out@ =~= target@.map_values(|c: char| env_key_char(c)) + seq!['_'] + name@.subrange(
                0,
                j as int,
            ),
        decreases nlen - j,
    {
        out.push(name.get_char(j));
        j = j + 1;
    }
    proof {
        assert(name@.subrange(0, nlen as int) =~= name@);
    }
    out
}

/// Prefer the target-prefixed value over the bare one.
pub fn pick_env(prefixed: Option<String>, bare: Option<String>) -> (r: Option<String>)
    ensures
        prefixed is Some ==> r == prefixed,
        prefixed is None ==> r == bare,
{
    match prefixed {
        Some(v) => Some(v),
        None => bare,
    }
}

/// Vendoring is used when it is compiled in and the no-vendor toggle
/// is unset or set to `"0"`.
pub open spec fn should_vendor_spec(vendor_enabled: bool, no_vendor: Option<Seq<char>>) -> bool {
    vendor_enabled && (no_vendor is None || no_vendor->0 == "0"@)
}

/// Decide whether to build the vendored copy.
pub fn should_vendor(vendor_enabled: bool, no_vendor: Option<&str>) -> (r: bool)
    ensures
        r == should_vendor_spec(
            vendor_enabled,
            match no_vendor {
                Some(v) => Some(v@),
                None => None,
            },
        ),
{
    vendor_enabled && (match no_vendor {
        Some(v) => crate::strutil::str_eq(v, "0"),
        None => true,
    })
}

} // verus!
