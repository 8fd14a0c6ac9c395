//! The location strategy: where the library's artifacts and headers
//! come from. First success wins, in a fixed order: the vendored
//! build, explicit directory overrides (a combined root, or a separate
//! lib/include pair), the platform package-metadata query, the native
//! package manager's probe, and finally a short list of conventional
//! install directories. The caller performs the filesystem and process
//! work and hands in what each probe observed; failure of every
//! strategy is fatal.

use vstd::prelude::*;

use crate::envkey::should_vendor_spec;
use crate::errors::BuildError;

verus! {

/// One conventional install directory, with what a look at the disk
/// found there.
pub struct KnownDir {
    pub dir: String,
    pub has_lib: bool,
    pub has_include: bool,
}

/// Where the library was found.
pub enum Location {
    /// Build the bundled source; the vendored builder supplies the
    /// directory pair.
    Vendored,
    /// A combined root override: artifacts and headers under one root.
    RootDir(String),
    /// Separate explicit lib and include directories.
    SplitDirs(String, String),
    /// A (lib dir, include dir) pair reported by a package query.
    ProbedDirs(String, String),
    /// The conventional install directory at this index of the
    /// candidate list.
    Known(usize),
}

/// A candidate directory is usable when it has both a lib and an
/// include subdirectory.
pub open spec fn known_usable(d: KnownDir) -> bool {
    d.has_lib && d.has_include
}

/// Index of the first usable candidate; the list length when none is.
pub open spec fn first_usable(dirs: Seq<KnownDir>) -> int
    decreases dirs.len(),
{
    if dirs.len() == 0 {
        0
    } else if known_usable(dirs[0]) {
        0
    } else {
        1 + first_usable(dirs.subrange(1, dirs.len() as int))
    }
}

pub proof fn lemma_first_usable(dirs: Seq<KnownDir>)
    ensures
        0 <= first_usable(dirs) <= dirs.len(),
        first_usable(dirs) < dirs.len() ==> known_usable(dirs[first_usable(dirs)]),
        forall|j: int| 0 <= j < first_usable(dirs) ==> !known_usable(#[trigger] dirs[j]),
    decreases dirs.len(),
{
    if dirs.len() > 0 && !known_usable(dirs[0]) {
        let tail = dirs.subrange(1, dirs.len() as int);
        lemma_first_usable(tail);
        assert forall|j: int| 0 <= j < first_usable(dirs) implies !known_usable(
            #[trigger] dirs[j],
        ) by {
            if j >= 1 {
                assert(tail[j - 1] == dirs[j]);
                assert(!known_usable(tail[j - 1]));
            }
        }
    }
}

/// Resolve where the library lives. The caller has already looked up
/// every override, run the package queries it could, and examined the
/// conventional directories; this decides, in the fixed order of the
/// strategies, which observation wins.
#[verifier::loop_isolation(false)]
pub fn locate(
    vendor_enabled: bool,
    no_vendor: Option<&str>,
    dir_override: Option<String>,
    lib_override: Option<String>,
    include_override: Option<String>,
    pkg_probe: Option<(String, String)>,
    native_probe: Option<(String, String)>,
    known_dirs: &Vec<KnownDir>,
) -> (r: Result<Location, BuildError>)
    ensures
        ({
            let uv = should_vendor_spec(
                vendor_enabled,
                match no_vendor {
                    Some(v) => Some(v@),
                    None => None,
                },
            );
            &&& uv ==> r == Ok::<Location, BuildError>(Location::Vendored)
            &&& !uv && dir_override is Some ==> r == Ok::<Location, BuildError>(
                Location::RootDir(dir_override->0),
            )
            &&& !uv && dir_override is None && lib_override is Some && include_override is Some
                ==> r == Ok::<Location, BuildError>(
                Location::SplitDirs(lib_override->0, include_override->0),
            )
            &&& !uv && dir_override is None && !(lib_override is Some && include_override is Some)
                && pkg_probe is Some ==> r == Ok::<Location, BuildError>(
                Location::ProbedDirs((pkg_probe->0).0, (pkg_probe->0).1),
            )
            &&& !uv && dir_override is None && !(lib_override is Some && include_override is Some)
                && pkg_probe is None && native_probe is Some ==> r == Ok::<Location, BuildError>(
                Location::ProbedDirs((native_probe->0).0, (native_probe->0).1),
            )
            &&& !uv && dir_override is None && !(lib_override is Some && include_override is Some)
                && pkg_probe is None && native_probe is None && first_usable(known_dirs@)
                < known_dirs@.len() ==> r == Ok::<Location, BuildError>(
                Location::Known(first_usable(known_dirs@) as usize),
            )
            &&& !uv && dir_override is None && !(lib_override is Some && include_override is Some)
                && pkg_probe is None && native_probe is None && first_usable(known_dirs@)
                == known_dirs@.len() ==> r == Err::<Location, BuildError>(BuildError::NotFound)
        }),
{
    if crate::envkey::should_vendor(vendor_enabled, no_vendor) {
        return Ok(Location::Vendored);
    }
    if let Some(d) = dir_override {
        return Ok(Location::RootDir(d));
    }
    if lib_override.is_some() && include_override.is_some() {
        let l: String = lib_override.unwrap();
        let n: String = include_override.unwrap();
        return Ok(Location::SplitDirs(l, n));
    }
    if let Some(p) = pkg_probe {
        return Ok(Location::ProbedDirs(p.0, p.1));
    }
    if let Some(p) = native_probe {
        return Ok(Location::ProbedDirs(p.0, p.1));
    }
    let mut i: usize = 0;
    while i < known_dirs.len()
        invariant
            0 <= i <= known_dirs@.len(),
            forall|j: int| 0 <= j < i ==> !known_usable(#[trigger] known_dirs@[j]),
        decreases known_dirs@.len() - i,
    {
        if known_dirs[i].has_lib && known_dirs[i].has_include {
            proof {
                lemma_first_usable(known_dirs@);
                assert(known_usable(known_dirs@[i as int]));
                let fu = first_usable(known_dirs@);
                if fu < i {
                    assert(!known_usable(known_dirs@[fu]));
                }
                if fu > i {
                    assert(!known_usable(known_dirs@[i as int]));
                }
                assert(fu == i);
            }
            return Ok(Location::Known(i));
        }
        i = i + 1;
    }
    proof {
        lemma_first_usable(known_dirs@);
    }
    Err(BuildError::NotFound)
}

} // verus!
