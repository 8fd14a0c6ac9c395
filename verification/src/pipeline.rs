//! The per-build pipeline steps that tie the probe, the codec and the
//! supportability check together, and the library-name selection.

use vstd::prelude::*;

use crate::cfgs::{cfgs_spec, get};
use crate::emit::{Directive, DirectiveView};
use crate::errors::BuildError;
use crate::probe::{
    all_version_lines_ok,
    conf_flags_seq,
    extract,
    last_version_idx,
    lemma_last_version_idx,
    line_version_val,
    lines_spec,
};
use crate::strutil::{all_hex, contains_spec, numeral_val, parse_numeral, split_char, split_spec, str_contains};
use crate::version::{
    classify_version,
    Version,
    VERSION_1_1_1,
    VERSION_3_0_0,
    VERSION_TOO_NEW,
};

verus! {

/// Everything the headers report: the major line, the exact decoded
/// version, the configuration flags, and the version-gated tiers.
pub struct HeaderInfo<'a> {
    pub version: Version,
    pub number: u64,
    pub flags: Vec<&'a str>,
    pub tiers: Vec<&'static str>,
}

/// Validate the expanded probe text: scan it, insist on a version
/// line, decode and classify the version, and derive the tiers. Every
/// failure is fatal: a missing or malformed version means broken
/// headers, and an out-of-range one is unsupported.
pub fn validate_headers<'a>(expanded: &'a str) -> (r: Result<HeaderInfo<'a>, BuildError>)
    ensures
        ({
            let lines = lines_spec(expanded@);
            r is Ok <==> all_version_lines_ok(lines) && last_version_idx(lines) >= 0 && (
            VERSION_1_1_1 <= line_version_val(lines[last_version_idx(lines)]) < VERSION_TOO_NEW)
        }),
        r matches Ok(h) ==> h.number as int == line_version_val(
            lines_spec(expanded@)[last_version_idx(lines_spec(expanded@))],
        ),
        r matches Ok(h) ==> (VERSION_1_1_1 <= h.number < VERSION_3_0_0 && h.version
            == Version::Openssl11x) || (VERSION_3_0_0 <= h.number < VERSION_TOO_NEW && h.version
            == Version::Openssl30x),
        r matches Ok(h) ==> h.tiers.deep_view() == cfgs_spec(h.number),
        r matches Ok(h) ==> h.flags.deep_view() == conf_flags_seq(lines_spec(expanded@)),
        !all_version_lines_ok(lines_spec(expanded@)) ==> r == Err::<HeaderInfo<'a>, BuildError>(
            BuildError::MalformedVersion,
        ),
        all_version_lines_ok(lines_spec(expanded@)) && last_version_idx(lines_spec(expanded@))
            == -1 ==> r == Err::<HeaderInfo<'a>, BuildError>(BuildError::MalformedVersion),
        ({
            let lines = lines_spec(expanded@);
            let idx = last_version_idx(lines);
            all_version_lines_ok(lines) && idx >= 0 && (line_version_val(lines[idx])
                < VERSION_1_1_1 || line_version_val(lines[idx]) >= VERSION_TOO_NEW) ==> r == Err::<
                HeaderInfo<'a>,
                BuildError,
            >(BuildError::UnsupportedVersion)
        }),
{
    let ghost lines = lines_spec(expanded@);
    let scan = match extract(expanded) {
        Ok(s) => s,
        Err(e) => {
            return Err(e);
        },
    };
    proof {
        lemma_last_version_idx(lines);
    }
    let number: u64 = match scan.version {
        Some(n) => n,
        None => {
            return Err(BuildError::MalformedVersion);
        },
    };
    let tiers: Vec<&'static str> = get(Some(number));
    let version: Version = match classify_version(number) {
        Ok(v) => v,
        Err(e) => {
            return Err(e);
        },
    };
    Ok(HeaderInfo { version, number, flags: scan.flags, tiers })
}

/// The libraries to link: an explicit colon-separated override when
/// one is set (empty meaning none at all), otherwise the platform's
/// default pair, which on MSVC targets of the 1.1.x line carries the
/// `lib` prefix in the artifact names themselves.
pub fn choose_libs<'a>(libs_env: Option<&'a str>, version: Version, target: &str) -> (r: Vec<
    &'a str,
>)
    ensures
        libs_env matches Some(v) ==> r.deep_view() == (if v@.len() == 0 {
            Seq::<Seq<char>>::empty()
        } else {
            split_spec(v@, ':')
        }),
        libs_env is None ==> r.deep_view() == (if version is Openssl11x && contains_spec(
            target@,
            "windows-msvc"@,
        ) {
            seq!["libssl"@, "libcrypto"@]
        } else {
            seq!["ssl"@, "crypto"@]
        }),
{
    match libs_env {
        Some(v) => {
            if v.unicode_len() == 0 {
                let r: Vec<&'a str> = Vec::new();
                proof {
                    assert(r.deep_view() =~= Seq::<Seq<char>>::empty());
                }
                r
            } else {
                split_char(v, ':')
            }
        },
        None => {
            let msvc: bool = str_contains(target, "windows-msvc");
            let is11: bool = match version {
                Version::Openssl11x => true,
                Version::Openssl30x => false,
            };
            let mut libs: Vec<&'a str> = Vec::new();
            if is11 && msvc {
                libs.push("libssl");
                libs.push("libcrypto");
                proof {
                    assert(libs.deep_view() =~= seq!["libssl"@, "libcrypto"@]);
                }
            } else {
                libs.push("ssl");
                libs.push("crypto");
                proof {
                    assert(libs.deep_view() =~= seq!["ssl"@, "crypto"@]);
                }
            }
            libs
        },
    }
}

/// The tiers a downstream consumer of the emitted facts derives from
/// the raw hex version number.
pub open spec fn downstream_tiers(v: u64) -> Seq<Seq<char>> {
    (if v >= VERSION_1_1_1 {
        seq!["ossl111"@]
    } else {
        Seq::<Seq<char>>::empty()
    }) + (if v >= VERSION_3_0_0 {
        seq!["ossl300"@]
    } else {
        Seq::<Seq<char>>::empty()
    })
}

/// What a downstream consumer of the emitted facts re-derives from
/// them: one flag per entry of the comma-separated configuration
/// summary, and the coarse tiers recovered from the bare hex version
/// number.
#[verifier::loop_isolation(false)]
pub fn downstream_cfgs<'a>(conf: Option<&'a str>, version_hex: Option<&str>) -> (r: Result<
    Vec<Directive>,
    BuildError,
>)
    ensures
        ({
            let confs = match conf {
                Some(c) => split_spec(c@, ','),
                None => Seq::<Seq<char>>::empty(),
            };
            let vh = match version_hex {
                Some(h) => Some(h@),
                None => None,
            };
            &&& (vh matches Some(h) && !(h.len() > 0 && all_hex(h) && numeral_val(h, 16)
                <= u64::MAX)) ==> r == Err::<Vec<Directive>, BuildError>(
                BuildError::MalformedVersion,
            )
            &&& r matches Ok(ds) ==> ds.deep_view() == confs.map_values(
                |f: Seq<char>| DirectiveView::OsslConf(f),
            ) + (match vh {
                Some(h) => downstream_tiers(numeral_val(h, 16) as u64).map_values(
                    |t: Seq<char>| DirectiveView::VersionCfg(t),
                ),
                None => Seq::<DirectiveView>::empty(),
            })
            &&& (vh is None || (vh->0.len() > 0 && all_hex(vh->0) && numeral_val(vh->0, 16)
                <= u64::MAX)) ==> r is Ok
        }),
{
    let mut out: Vec<Directive> = Vec::new();
    let ghost confs = match conf {
        Some(c) => split_spec(c@, ','),
        None => Seq::<Seq<char>>::empty(),
    };
    match conf {
        Some(c) => {
            let parts: Vec<&str> = split_char(c, ',');
            let mut i: usize = 0;
            while i < parts.len()
                invariant
                    0 <= i <= parts@.len(),
                    parts.deep_view() == confs,
                    out.deep_view() =~= confs.subrange(0, i as int).map_values(
                        |f: Seq<char>| DirectiveView::OsslConf(f),
                    ),
                decreases parts@.len() - i,
            {
                let ghost prev = out.deep_view();
                out.push(Directive::OsslConf(parts[i].to_owned()));
                proof {
                    assert(out.deep_view() =~= prev.push(DirectiveView::OsslConf(confs[i as int])));
                    assert(out.deep_view() =~= confs.subrange(0, i + 1).map_values(
                        |f: Seq<char>| DirectiveView::OsslConf(f),
                    ));
                }
                i = i + 1;
            }
            proof {
                assert(confs.subrange(0, confs.len() as int) =~= confs);
            }
        },
        None => {
            proof {
                assert(out.deep_view() =~= confs.map_values(
                    |f: Seq<char>| DirectiveView::OsslConf(f),
                ));
            }
        },
    }
    let ghost confpart = confs.map_values(|f: Seq<char>| DirectiveView::OsslConf(f));
    match version_hex {
        Some(h) => {
            let number: u64 = match parse_numeral(h, true) {
                Some(n) => n,
                None => {
                    return Err(BuildError::MalformedVersion);
                },
            };
            let ghost prev = out.deep_view();
            if number >= VERSION_1_1_1 {
                out.push(Directive::VersionCfg("ossl111".to_owned()));
            }
            if number >= VERSION_3_0_0 {
                out.push(Directive::VersionCfg("ossl300".to_owned()));
            }
            proof {
                assert(out.deep_view() =~= confpart + downstream_tiers(number).map_values(
                    |t: Seq<char>| DirectiveView::VersionCfg(t),
                ));
            }
        },
        None => {},
    }
    Ok(out)
}

/// The probe text names a version and every version line decodes.
pub open spec fn probe_version_ok(lines: Seq<Seq<char>>) -> bool {
    all_version_lines_ok(lines) && last_version_idx(lines) >= 0
}

/// The version the probe text reports.
pub open spec fn probed_version(lines: Seq<Seq<char>>) -> int {
    line_version_val(lines[last_version_idx(lines)])
}

/// The library list a build links, as `choose_libs` decides it.
pub open spec fn chosen_libs(
    libs_env: Option<Seq<char>>,
    version: Version,
    target: Seq<char>,
) -> Seq<Seq<char>> {
    match libs_env {
        Some(v) => if v.len() == 0 {
            Seq::<Seq<char>>::empty()
        } else {
            split_spec(v, ':')
        },
        None => if version is Openssl11x && contains_spec(target, "windows-msvc"@) {
            seq!["libssl"@, "libcrypto"@]
        } else {
            seq!["ssl"@, "crypto"@]
        },
    }
}

/// Some link kind is possible: an override settles it, or the
/// directory carries a complete artifact set of at least one kind.
pub open spec fn mode_ok(
    files: Seq<Seq<char>>,
    libs: Seq<Seq<char>>,
    kind_override: Option<Seq<char>>,
) -> bool {
    kind_override is Some || crate::linkmode::can_static(files, libs)
        || crate::linkmode::can_dylib(files, libs)
}

/// The link kind a build resolves to, as `determine_mode` decides it.
pub open spec fn chosen_mode(
    files: Seq<Seq<char>>,
    libs: Seq<Seq<char>>,
    kind_override: Option<Seq<char>>,
) -> crate::linkmode::LinkKind {
    match kind_override {
        Some(v) => if v == "0"@ {
            crate::linkmode::LinkKind::Dylib
        } else {
            crate::linkmode::LinkKind::Static
        },
        None => if crate::linkmode::can_dylib(files, libs) {
            crate::linkmode::LinkKind::Dylib
        } else {
            crate::linkmode::LinkKind::Static
        },
    }
}

/// The major line of a supported version.
pub open spec fn chosen_version(n: int) -> Version {
    if n >= VERSION_3_0_0 {
        Version::Openssl30x
    } else {
        Version::Openssl11x
    }
}

/// Run the whole per-build decision pipeline on what was observed: the
/// expanded probe text, the override values and the library
/// directory's file listing. Yields the directive list of the build,
/// or the fatal error of the first step that cannot go on.
#[verifier::rlimit(100)]
pub fn plan_build(
    target: &str,
    lib_dir: &str,
    include_dir: &str,
    expanded: &str,
    libs_env: Option<&str>,
    static_override: Option<&str>,
    dir_files: &Vec<String>,
) -> (r: Result<Vec<Directive>, BuildError>)
    ensures
        ({
            let lines = lines_spec(expanded@);
            let n = probed_version(lines);
            let ver = chosen_version(n);
            let le = match libs_env {
                Some(v) => Some(v@),
                None => None,
            };
            let so = match static_override {
                Some(v) => Some(v@),
                None => None,
            };
            let libs = chosen_libs(le, ver, target@);
            r is Ok <==> probe_version_ok(lines) && VERSION_1_1_1 <= n < VERSION_TOO_NEW
                && mode_ok(dir_files.deep_view(), libs, so)
        }),
        ({
            let lines = lines_spec(expanded@);
            let n = probed_version(lines);
            let ver = chosen_version(n);
            let le = match libs_env {
                Some(v) => Some(v@),
                None => None,
            };
            let so = match static_override {
                Some(v) => Some(v@),
                None => None,
            };
            let libs = chosen_libs(le, ver, target@);
            r matches Ok(ds) ==> ds.deep_view() == crate::emit::directives_spec(
                lib_dir@,
                include_dir@,
                conf_flags_seq(lines),
                cfgs_spec(n as u64),
                n as u64,
                ver,
                chosen_mode(dir_files.deep_view(), libs, so),
                libs,
                contains_spec(target@, "windows"@),
            )
        }),
        !all_version_lines_ok(lines_spec(expanded@)) ==> r == Err::<Vec<Directive>, BuildError>(
            BuildError::MalformedVersion,
        ),
        all_version_lines_ok(lines_spec(expanded@)) && last_version_idx(lines_spec(expanded@))
            == -1 ==> r == Err::<Vec<Directive>, BuildError>(BuildError::MalformedVersion),
        probe_version_ok(lines_spec(expanded@)) && !(VERSION_1_1_1 <= probed_version(
            lines_spec(expanded@),
        ) < VERSION_TOO_NEW) ==> r == Err::<Vec<Directive>, BuildError>(
            BuildError::UnsupportedVersion,
        ),
        ({
            let lines = lines_spec(expanded@);
            let n = probed_version(lines);
            let le = match libs_env {
                Some(v) => Some(v@),
                None => None,
            };
            let so = match static_override {
                Some(v) => Some(v@),
                None => None,
            };
            let libs = chosen_libs(le, chosen_version(n), target@);
            probe_version_ok(lines) && VERSION_1_1_1 <= n < VERSION_TOO_NEW && !mode_ok(
                dir_files.deep_view(),
                libs,
                so,
            ) ==> r == Err::<Vec<Directive>, BuildError>(BuildError::AmbiguousArtifacts)
        }),
{
    let h: HeaderInfo = match validate_headers(expanded) {
        Ok(h) => h,
        Err(e) => {
            return Err(e);
        },
    };
    let libs: Vec<&str> = choose_libs(libs_env, h.version, target);
    let kind: crate::linkmode::LinkKind = match crate::linkmode::determine_mode(
        dir_files,
        &libs,
        static_override,
    ) {
        Ok(k) => k,
        Err(e) => {
            return Err(e);
        },
    };
    let windows: bool = str_contains(target, "windows");
    let ds: Vec<Directive> = crate::emit::build_directives(
        lib_dir,
        include_dir,
        &h.flags,
        &h.tiers,
        h.number,
        h.version,
        kind,
        &libs,
        windows,
    );
    proof {
        let lines = lines_spec(expanded@);
        assert(ds.deep_view() == crate::emit::directives_spec(
            lib_dir@,
            include_dir@,
            conf_flags_seq(lines),
            cfgs_spec(probed_version(lines) as u64),
            probed_version(lines) as u64,
            chosen_version(probed_version(lines)),
            chosen_mode(
                dir_files.deep_view(),
                chosen_libs(
                    match libs_env {
                        Some(v) => Some(v@),
                        None => None,
                    },
                    chosen_version(probed_version(lines)),
                    target@,
                ),
                match static_override {
                    Some(v) => Some(v@),
                    None => None,
                },
            ),
            chosen_libs(
                match libs_env {
                    Some(v) => Some(v@),
                    None => None,
                },
                chosen_version(probed_version(lines)),
                target@,
            ),
            contains_spec(target@, "windows"@),
        ));
    }
    Ok(ds)
}

} // verus!
