use openssl_build::emit::{build_directives, Directive};
use openssl_build::envkey::{env_key, pick_env, should_vendor};
use openssl_build::errors::BuildError;
use openssl_build::linkmode::{determine_mode, LinkKind};
use openssl_build::locator::{locate, KnownDir, Location};
use openssl_build::pipeline::{choose_libs, downstream_cfgs, plan_build, validate_headers};
use openssl_build::probe::extract;
use openssl_build::version::Version;

fn names(v: &[&str]) -> Vec<String> {
    v.iter().map(|s| s.to_string()).collect()
}

#[test]
fn extract_collects_flags_in_either_order() {
    let a = extract("RUST_CONF_FOO\nRUST_CONF_BAR\n").unwrap();
    let b = extract("RUST_CONF_BAR\nRUST_CONF_FOO\n").unwrap();
    assert_eq!(a.flags, vec!["FOO", "BAR"]);
    assert_eq!(b.flags, vec!["BAR", "FOO"]);
    let mut sa = a.flags.clone();
    let mut sb = b.flags.clone();
    sa.sort();
    sb.sort();
    assert_eq!(sa, sb);
    assert_eq!(a.version, None);
}

#[test]
fn extract_deduplicates_flags() {
    let r = extract("RUST_CONF_FOO\njunk line\nRUST_CONF_FOO\nRUST_CONF_BAR").unwrap();
    assert_eq!(r.flags, vec!["FOO", "BAR"]);
}

#[test]
fn extract_trims_and_ignores_detritus() {
    let r = extract("# 1 \"expando.c\"\n   RUST_CONF_NO_ENGINE \r\nwarning: blah").unwrap();
    assert_eq!(r.flags, vec!["NO_ENGINE"]);
}

#[test]
fn extract_reads_legacy_version() {
    let r = extract("RUST_VERSION_OPENSSL_0x1010107fL\n").unwrap();
    assert_eq!(r.version, Some(0x1010107f));
}

#[test]
fn extract_reads_modern_version_and_last_wins() {
    let r = extract("RUST_VERSION_NEW_OPENSSL_3_0_0\nRUST_VERSION_NEW_OPENSSL_3_0_1\n").unwrap();
    assert_eq!(r.version, Some((3 << 28) | (1 << 4)));
}

#[test]
fn extract_fails_on_malformed_version_line() {
    assert_eq!(
        extract("RUST_VERSION_OPENSSL_garbage\n").map(|s| s.version),
        Err(BuildError::MalformedVersion)
    );
    assert_eq!(
        extract("RUST_VERSION_NEW_OPENSSL_3_0\n").map(|s| s.version),
        Err(BuildError::MalformedVersion)
    );
}

#[test]
fn validate_headers_reports_everything() {
    let text = "RUST_VERSION_OPENSSL_0x1010106fL\nRUST_CONF_NO_SSL3\n";
    let h = validate_headers(text).unwrap();
    assert_eq!(h.number, 0x1010106f);
    assert_eq!(h.version, Version::Openssl11x);
    assert_eq!(h.flags, vec!["NO_SSL3"]);
    assert_eq!(h.tiers, vec!["ossl111c", "ossl111b", "ossl111"]);
}

#[test]
fn validate_headers_requires_a_version() {
    assert!(matches!(validate_headers("RUST_CONF_FOO\n"), Err(BuildError::MalformedVersion)));
}

#[test]
fn validate_headers_rejects_out_of_range_versions() {
    assert!(matches!(
        validate_headers("RUST_VERSION_OPENSSL_0x100020cfL\n"),
        Err(BuildError::UnsupportedVersion)
    ));
    assert!(matches!(
        validate_headers("RUST_VERSION_NEW_OPENSSL_4_0_0\n"),
        Err(BuildError::UnsupportedVersion)
    ));
}

#[test]
fn static_only_artifacts_resolve_static() {
    let files = names(&["libssl.a", "libcrypto.a"]);
    let libs = vec!["ssl", "crypto"];
    assert_eq!(determine_mode(&files, &libs, None), Ok(LinkKind::Static));
}

#[test]
fn dynamic_only_artifacts_resolve_dynamic() {
    let files = names(&["libssl.so", "libcrypto.so"]);
    let libs = vec!["ssl", "crypto"];
    assert_eq!(determine_mode(&files, &libs, None), Ok(LinkKind::Dylib));
}

#[test]
fn both_artifact_kinds_prefer_dynamic() {
    let files = names(&["libssl.a", "libcrypto.a", "libssl.so", "libcrypto.so"]);
    let libs = vec!["ssl", "crypto"];
    assert_eq!(determine_mode(&files, &libs, None), Ok(LinkKind::Dylib));
}

#[test]
fn override_beats_directory_contents() {
    let files = names(&["libssl.a", "libcrypto.a", "libssl.so", "libcrypto.so"]);
    let libs = vec!["ssl", "crypto"];
    assert_eq!(determine_mode(&files, &libs, Some("1")), Ok(LinkKind::Static));
    assert_eq!(determine_mode(&names(&["libssl.a"]), &libs, Some("0")), Ok(LinkKind::Dylib));
    assert_eq!(determine_mode(&names(&[]), &libs, Some("yes")), Ok(LinkKind::Static));
}

#[test]
fn missing_artifacts_are_fatal() {
    let files = names(&["README", "libssl.a"]);
    let libs = vec!["ssl", "crypto"];
    assert_eq!(determine_mode(&files, &libs, None), Err(BuildError::AmbiguousArtifacts));
}

#[test]
fn windows_artifact_names_count() {
    let files = names(&["ssl.lib", "libcrypto.lib"]);
    let libs = vec!["ssl", "crypto"];
    assert_eq!(determine_mode(&files, &libs, None), Ok(LinkKind::Static));
    let files = names(&["ssl.dll", "libcrypto.dll", "libextra.dylib", "extra.lib"]);
    let libs = vec!["ssl", "crypto"];
    assert_eq!(determine_mode(&files, &libs, None), Ok(LinkKind::Dylib));
}

#[test]
fn env_keys_are_target_prefixed() {
    let key: String = env_key("x86_64-apple-darwin", "OPENSSL_DIR").into_iter().collect();
    assert_eq!(key, "X86_64_APPLE_DARWIN_OPENSSL_DIR");
    assert_eq!(
        pick_env(Some("per-target".to_string()), Some("bare".to_string())),
        Some("per-target".to_string())
    );
    assert_eq!(pick_env(None, Some("bare".to_string())), Some("bare".to_string()));
    assert_eq!(pick_env(None, None), None);
}

#[test]
fn vendoring_honors_the_toggle() {
    assert!(should_vendor(true, None));
    assert!(should_vendor(true, Some("0")));
    assert!(!should_vendor(true, Some("1")));
    assert!(!should_vendor(false, None));
}

#[test]
fn locate_tries_strategies_in_order() {
    let none_known: Vec<KnownDir> = Vec::new();
    assert!(matches!(
        locate(true, None, Some("/o".into()), None, None, None, None, &none_known),
        Ok(Location::Vendored)
    ));
    match locate(false, None, Some("/o".into()), None, None, None, None, &none_known) {
        Ok(Location::RootDir(d)) => assert_eq!(d, "/o"),
        other => panic!("unexpected: {:?}", matches!(other, Ok(_))),
    }
    match locate(
        false,
        None,
        None,
        Some("/l".into()),
        Some("/i".into()),
        Some(("/pl".into(), "/pi".into())),
        None,
        &none_known,
    ) {
        Ok(Location::SplitDirs(l, i)) => {
            assert_eq!(l, "/l");
            assert_eq!(i, "/i");
        },
        _ => panic!("expected split dirs"),
    }
    match locate(false, None, None, Some("/l".into()), None, Some(("/pl".into(), "/pi".into())), None, &none_known) {
        Ok(Location::ProbedDirs(l, i)) => {
            assert_eq!(l, "/pl");
            assert_eq!(i, "/pi");
        },
        _ => panic!("expected the package query to win over a lone lib override"),
    }
    let known = vec![
        KnownDir { dir: "/usr/local".to_string(), has_lib: true, has_include: false },
        KnownDir { dir: "/usr".to_string(), has_lib: true, has_include: true },
        KnownDir { dir: "/opt".to_string(), has_lib: true, has_include: true },
    ];
    assert!(matches!(locate(false, None, None, None, None, None, None, &known), Ok(Location::Known(1))));
    assert!(matches!(
        locate(false, None, None, None, None, None, None, &none_known),
        Err(BuildError::NotFound)
    ));
}

#[test]
fn default_library_names_follow_platform_and_line() {
    let r = choose_libs(None, Version::Openssl30x, "x86_64-unknown-linux-gnu");
    assert_eq!(r, vec!["ssl", "crypto"]);
    let r = choose_libs(None, Version::Openssl11x, "x86_64-pc-windows-msvc");
    assert_eq!(r, vec!["libssl", "libcrypto"]);
    let r = choose_libs(None, Version::Openssl30x, "x86_64-pc-windows-msvc");
    assert_eq!(r, vec!["ssl", "crypto"]);
    let r = choose_libs(Some(""), Version::Openssl30x, "x86_64-unknown-linux-gnu");
    assert_eq!(r, Vec::<&str>::new());
    let r = choose_libs(Some("crypto:z"), Version::Openssl30x, "x86_64-unknown-linux-gnu");
    assert_eq!(r, vec!["crypto", "z"]);
}

#[test]
fn directives_come_out_in_order() {
    let flags = vec!["NO_ENGINE"];
    let tiers = vec!["ossl300", "ossl111"];
    let libs = vec!["ssl", "crypto"];
    let ds = build_directives(
        "/usr/lib",
        "/usr/include",
        &flags,
        &tiers,
        0x3000_0000,
        Version::Openssl30x,
        LinkKind::Dylib,
        &libs,
        false,
    );
    assert_eq!(
        ds,
        vec![
            Directive::LinkSearch("/usr/lib".to_string()),
            Directive::Include("/usr/include".to_string()),
            Directive::OsslConf("NO_ENGINE".to_string()),
            Directive::ConfSummary(vec!["NO_ENGINE".to_string()]),
            Directive::VersionCfg("ossl300".to_string()),
            Directive::VersionCfg("ossl111".to_string()),
            Directive::VersionNumber(0x3000_0000),
            Directive::VersionTag(Version::Openssl30x),
            Directive::LinkLib(LinkKind::Dylib, "ssl".to_string()),
            Directive::LinkLib(LinkKind::Dylib, "crypto".to_string()),
        ]
    );
}

#[test]
fn static_windows_links_pull_in_system_libraries() {
    let flags: Vec<&str> = Vec::new();
    let tiers: Vec<&str> = Vec::new();
    let libs = vec!["ssl"];
    let ds = build_directives(
        "l",
        "i",
        &flags,
        &tiers,
        0x3000_0000,
        Version::Openssl30x,
        LinkKind::Static,
        &libs,
        true,
    );
    let tail: Vec<Directive> = ds[ds.len() - 5..].to_vec();
    assert_eq!(
        tail,
        vec![
            Directive::LinkLib(LinkKind::Dylib, "gdi32".to_string()),
            Directive::LinkLib(LinkKind::Dylib, "user32".to_string()),
            Directive::LinkLib(LinkKind::Dylib, "crypt32".to_string()),
            Directive::LinkLib(LinkKind::Dylib, "ws2_32".to_string()),
            Directive::LinkLib(LinkKind::Dylib, "advapi32".to_string()),
        ]
    );
}

#[test]
fn downstream_consumers_rederive_their_cfgs() {
    let ds = downstream_cfgs(Some("A,B"), Some("1010103f")).unwrap();
    assert_eq!(
        ds,
        vec![
            Directive::OsslConf("A".to_string()),
            Directive::OsslConf("B".to_string()),
            Directive::VersionCfg("ossl111".to_string()),
        ]
    );
    let ds = downstream_cfgs(None, Some("30000000")).unwrap();
    assert_eq!(
        ds,
        vec![
            Directive::VersionCfg("ossl111".to_string()),
            Directive::VersionCfg("ossl300".to_string()),
        ]
    );
    assert_eq!(downstream_cfgs(None, Some("xyz")), Err(BuildError::MalformedVersion));
    assert_eq!(downstream_cfgs(None, None), Ok(Vec::new()));
}

#[test]
fn end_to_end_dynamic_engine_build() {
    let expanded = "# 1 \"expando.c\"\nRUST_VERSION_NEW_OPENSSL_3_0_0\nRUST_CONF_ENGINE\n";
    let dir_files = names(&["libssl.so", "libcrypto.so"]);
    let ds = plan_build(
        "x86_64-unknown-linux-gnu",
        "/usr/lib",
        "/usr/include",
        expanded,
        None,
        None,
        &dir_files,
    )
    .unwrap();
    assert!(ds.contains(&Directive::OsslConf("ENGINE".to_string())));
    assert!(ds.contains(&Directive::VersionCfg("ossl111".to_string())));
    assert!(ds.contains(&Directive::VersionCfg("ossl300".to_string())));
    assert!(ds.contains(&Directive::VersionNumber(0x3000_0000)));
    assert!(ds.contains(&Directive::VersionTag(Version::Openssl30x)));
    assert!(ds.contains(&Directive::LinkLib(LinkKind::Dylib, "ssl".to_string())));
    assert!(ds.contains(&Directive::LinkLib(LinkKind::Dylib, "crypto".to_string())));
    assert!(!ds.iter().any(|d| matches!(d, Directive::LinkLib(LinkKind::Static, _))));
}

#[test]
fn end_to_end_failures_are_fatal() {
    let dir_files = names(&["libssl.so", "libcrypto.so"]);
    assert_eq!(
        plan_build("t", "l", "i", "no version here\n", None, None, &dir_files),
        Err(BuildError::MalformedVersion)
    );
    assert_eq!(
        plan_build("t", "l", "i", "RUST_VERSION_OPENSSL_0x009070afL\n", None, None, &dir_files),
        Err(BuildError::UnsupportedVersion)
    );
    let empty = names(&[]);
    assert_eq!(
        plan_build("t", "l", "i", "RUST_VERSION_NEW_OPENSSL_3_0_0\n", None, None, &empty),
        Err(BuildError::AmbiguousArtifacts)
    );
}

#[test]
fn empty_library_override_links_nothing() {
    let expanded = "RUST_VERSION_NEW_OPENSSL_3_0_0\n";
    let empty = names(&[]);
    let ds = plan_build("t", "l", "i", expanded, Some(""), None, &empty).unwrap();
    assert!(!ds.iter().any(|d| matches!(d, Directive::LinkLib(_, _))));
    assert!(ds.contains(&Directive::ConfSummary(Vec::new())));
}

#[test]
fn errors_describe_themselves() {
    assert!(BuildError::NotFound.describe().contains("located"));
    assert!(BuildError::ProbeFailure.describe().contains("probe"));
    assert!(BuildError::MalformedVersion.describe().contains("format"));
    assert!(BuildError::UnsupportedVersion.describe().contains("1.1.1"));
    assert!(BuildError::AmbiguousArtifacts.describe().contains("linking"));
    assert_eq!(LinkKind::Static.name(), "static");
    assert_eq!(LinkKind::Dylib.name(), "dylib");
}
