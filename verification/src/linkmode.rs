//! Link-kind resolution.
//!
//! Given the names present in the library directory and the list of
//! libraries to link, decide whether to link statically or
//! dynamically. An explicit override wins unconditionally; otherwise
//! the directory listing decides, and when both kinds are possible the
//! dynamic kind is preferred, so the host system can patch the shared
//! library without rebuilding its consumers.

use vstd::prelude::*;

use crate::errors::BuildError;
use crate::strutil::{eq_concat2, eq_concat3, str_eq};

verus! {

/// The single, global link kind of a build.
#[derive(Clone, Copy, Debug, PartialEq, Eq, Structural)]
pub enum LinkKind {
    Static,
    Dylib,
}

impl LinkKind {
    /// The word a link directive carries for this kind.
    pub fn name(&self) -> (r: &'static str)
        ensures
            *self is Static ==> r@ == "static"@,
            *self is Dylib ==> r@ == "dylib"@,
    {
        match self {
            LinkKind::Static => "static",
            LinkKind::Dylib => "dylib",
        }
    }
}

/// `name` is one of the directory entries.
pub open spec fn contains_name(files: Seq<Seq<char>>, name: Seq<char>) -> bool {
    exists|i: int| 0 <= i < files.len() && files[i] == name
}

/// A statically linkable artifact for library `l` is present, under
/// any platform naming convention.
pub open spec fn static_ok(files: Seq<Seq<char>>, l: Seq<char>) -> bool {
    ||| contains_name(files, "lib"@ + l + ".a"@)
    ||| contains_name(files, l + ".lib"@)
    ||| contains_name(files, "lib"@ + l + ".lib"@)
}

/// A dynamically linkable artifact for library `l` is present, under
/// any platform naming convention.
pub open spec fn dylib_ok(files: Seq<Seq<char>>, l: Seq<char>) -> bool {
    ||| contains_name(files, "lib"@ + l + ".so"@)
    ||| contains_name(files, l + ".dll"@)
    ||| contains_name(files, "lib"@ + l + ".dll"@)
    ||| contains_name(files, "lib"@ + l + ".dylib"@)
}

/// Every requested library has a static artifact.
pub open spec fn can_static(files: Seq<Seq<char>>, libs: Seq<Seq<char>>) -> bool {
    forall|j: int| 0 <= j < libs.len() ==> static_ok(files, #[trigger] libs[j])
}

/// Every requested library has a dynamic artifact.
pub open spec fn can_dylib(files: Seq<Seq<char>>, libs: Seq<Seq<char>>) -> bool {
    forall|j: int| 0 <= j < libs.len() ==> dylib_ok(files, #[trigger] libs[j])
}

/// Some directory entry is exactly `pre`, `mid`, `suf`.
fn dir_has_concat3(files: &Vec<String>, pre: &str, mid: &str, suf: &str) -> (r: bool)
    ensures
        r == contains_name(files.deep_view(), pre@ + mid@ + suf@),
{
    let mut k: usize = 0;
    while k < files.len()
        invariant
            0 <= k <= files@.len(),
            forall|i: int| 0 <= i < k ==> files.deep_view()[i] != pre@ + mid@ + suf@,
        decreases files@.len() - k,
    {
        if eq_concat3(files[k].as_str(), pre, mid, suf) {
            proof {
                assert(files.deep_view()[k as int] == pre@ + mid@ + suf@);
            }
            return true;
        }
        k = k + 1;
    }
    false
}

/// Some directory entry is exactly `a`, `b`.
fn dir_has_concat2(files: &Vec<String>, a: &str, b: &str) -> (r: bool)
    ensures
        r == contains_name(files.deep_view(), a@ + b@),
{
    let mut k: usize = 0;
    while k < files.len()
        invariant
            0 <= k <= files@.len(),
            forall|i: int| 0 <= i < k ==> files.deep_view()[i] != a@ + b@,
        decreases files@.len() - k,
    {
        if eq_concat2(files[k].as_str(), a, b) {
            proof {
                assert(files.deep_view()[k as int] == a@ + b@);
            }
            return true;
        }
        k = k + 1;
    }
    false
}

/// A static artifact for `l` is present.
fn lib_static_ok(files: &Vec<String>, l: &str) -> (r: bool)
    ensures
        r == static_ok(files.deep_view(), l@),
{
    dir_has_concat3(files, "lib", l, ".a") || dir_has_concat2(files, l, ".lib")
        || dir_has_concat3(files, "lib", l, ".lib")
}

/// A dynamic artifact for `l` is present.
fn lib_dylib_ok(files: &Vec<String>, l: &str) -> (r: bool)
    ensures
        r == dylib_ok(files.deep_view(), l@),
{
    dir_has_concat3(files, "lib", l, ".so") || dir_has_concat2(files, l, ".dll")
        || dir_has_concat3(files, "lib", l, ".dll") || dir_has_concat3(files, "lib", l, ".dylib")
}

/// Decide the link kind. `kind_override` is the explicit request, when
/// one was made: `"0"` forces dynamic linking and any other value
/// forces static linking, with no look at the directory. Without an
/// override, the artifacts present in `files` decide, preferring
/// dynamic when both kinds are complete; when neither is, the
/// directory holds no usable artifact set and the build cannot go on.
pub fn determine_mode(files: &Vec<String>, libs: &Vec<&str>, kind_override: Option<&str>) -> (r:
    Result<LinkKind, BuildError>)
    ensures
        (kind_override matches Some(v) && v@ == "0"@) ==> r == Ok::<LinkKind, BuildError>(
            LinkKind::Dylib,
        ),
        (kind_override matches Some(v) && v@ != "0"@) ==> r == Ok::<LinkKind, BuildError>(
            LinkKind::Static,
        ),
        kind_override is None && can_static(files.deep_view(), libs.deep_view()) && !can_dylib(
            files.deep_view(),
            libs.deep_view(),
        ) ==> r == Ok::<LinkKind, BuildError>(LinkKind::Static),
        kind_override is None && can_dylib(files.deep_view(), libs.deep_view()) ==> r == Ok::<
            LinkKind,
            BuildError,
        >(LinkKind::Dylib),
        kind_override is None && !can_static(files.deep_view(), libs.deep_view()) && !can_dylib(
            files.deep_view(),
            libs.deep_view(),
        ) ==> r == Err::<LinkKind, BuildError>(BuildError::AmbiguousArtifacts),
{
    match kind_override {
        Some(v) => {
            if str_eq(v, "0") {
                Ok(LinkKind::Dylib)
            } else {
                Ok(LinkKind::Static)
            }
        },
        None => {
            let mut all_static: bool = true;
            let mut j: usize = 0;
            while j < libs.len()
                invariant
                    0 <= j <= libs@.len(),
                    all_static == (forall|i: int|
                        0 <= i < j ==> static_ok(files.deep_view(), #[trigger] libs.deep_view()[i])),
                decreases libs@.len() - j,
            {
                let ok: bool = lib_static_ok(files, libs[j]);
                proof {
                    assert(libs.deep_view()[j as int] == libs@[j as int]@);
                }
                all_static = all_static && ok;
                j = j + 1;
            }
            let mut all_dylib: bool = true;
            let mut k: usize = 0;
            while k < libs.len()
                invariant
                    0 <= k <= libs@.len(),
                    all_dylib == (forall|i: int|
                        0 <= i < k ==> dylib_ok(files.deep_view(), #[trigger] libs.deep_view()[i])),
                decreases libs@.len() - k,
            {
                let ok: bool = lib_dylib_ok(files, libs[k]);
                proof {
                    assert(libs.deep_view()[k as int] == libs@[k as int]@);
                }
                all_dylib = all_dylib && ok;
                k = k + 1;
            }
            if all_static && !all_dylib {
                Ok(LinkKind::Static)
            } else if all_dylib {
                Ok(LinkKind::Dylib)
            } else {
                Err(BuildError::AmbiguousArtifacts)
            }
        },
    }
}

} // verus!
