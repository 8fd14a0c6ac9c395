//! Assembly of the build-system directives: a pure sink with no
//! decision logic of its own. The order is fixed: search path, include
//! path, the configuration flags (individually and summarized), the
//! version tiers, the numeric version, the major-line tag, one link
//! directive per library, and, for a static link on the Windows
//! family, the fixed extra system libraries the static artifacts need.

use vstd::prelude::*;

use crate::linkmode::LinkKind;
use crate::version::Version;

verus! {

/// One fact for the build system.
#[derive(Debug, Clone, PartialEq, Eq)]
pub enum Directive {
    /// Where the linker searches for the native artifacts.
    LinkSearch(String),
    /// Where downstream consumers find the headers.
    Include(String),
    /// One library-reported configuration flag.
    OsslConf(String),
    /// All configuration flags in one consumable summary.
    ConfSummary(Vec<String>),
    /// One version-gated conditional-compilation tier.
    VersionCfg(String),
    /// The decoded numeric version.
    VersionNumber(u64),
    /// The coarse major-line tag.
    VersionTag(Version),
    /// Link one library with the resolved kind.
    LinkLib(LinkKind, String),
}

/// The mathematical shape of a directive.
pub enum DirectiveView {
    LinkSearch(Seq<char>),
    Include(Seq<char>),
    OsslConf(Seq<char>),
    ConfSummary(Seq<Seq<char>>),
    VersionCfg(Seq<char>),
    VersionNumber(u64),
    VersionTag(Version),
    LinkLib(LinkKind, Seq<char>),
}

impl View for Directive {
    type V = DirectiveView;

    open spec fn view(&self) -> DirectiveView {
        match self {
            Directive::LinkSearch(d) => DirectiveView::LinkSearch(d@),
            Directive::Include(d) => DirectiveView::Include(d@),
            Directive::OsslConf(f) => DirectiveView::OsslConf(f@),
            Directive::ConfSummary(fs) => DirectiveView::ConfSummary(fs.deep_view()),
            Directive::VersionCfg(t) => DirectiveView::VersionCfg(t@),
            Directive::VersionNumber(n) => DirectiveView::VersionNumber(*n),
            Directive::VersionTag(v) => DirectiveView::VersionTag(*v),
            Directive::LinkLib(k, l) => DirectiveView::LinkLib(*k, l@),
        }
    }
}

impl DeepView for Directive {
    type V = DirectiveView;

    open spec fn deep_view(&self) -> DirectiveView {
        self.view()
    }
}

/// The extra system libraries a static Windows-family link needs.
pub open spec fn windows_static_extras() -> Seq<DirectiveView> {
    seq![
        DirectiveView::LinkLib(LinkKind::Dylib, "gdi32"@),
        DirectiveView::LinkLib(LinkKind::Dylib, "user32"@),
        DirectiveView::LinkLib(LinkKind::Dylib, "crypt32"@),
        DirectiveView::LinkLib(LinkKind::Dylib, "ws2_32"@),
        DirectiveView::LinkLib(LinkKind::Dylib, "advapi32"@),
    ]
}

/// Exactly the directives a build emits, in order.
pub open spec fn directives_spec(
    lib_dir: Seq<char>,
    include_dir: Seq<char>,
    flags: Seq<Seq<char>>,
    tiers: Seq<Seq<char>>,
    number: u64,
    version: Version,
    kind: LinkKind,
    libs: Seq<Seq<char>>,
    windows: bool,
) -> Seq<DirectiveView> {
    seq![DirectiveView::LinkSearch(lib_dir), DirectiveView::Include(include_dir)]
        + flags.map_values(|f: Seq<char>| DirectiveView::OsslConf(f)) + seq![
        DirectiveView::ConfSummary(flags),
    ] + tiers.map_values(|t: Seq<char>| DirectiveView::VersionCfg(t)) + seq![
        DirectiveView::VersionNumber(number),
        DirectiveView::VersionTag(version),
    ] + libs.map_values(|l: Seq<char>| DirectiveView::LinkLib(kind, l)) + (if kind is Static
        && windows {
        windows_static_extras()
    } else {
        Seq::<DirectiveView>::empty()
    })
}

/// Turn the resolved facts of one build into its directive list.
#[verifier::loop_isolation(false)]
pub fn build_directives(
    lib_dir: &str,
    include_dir: &str,
    flags: &Vec<&str>,
    tiers: &Vec<&str>,
    number: u64,
    version: Version,
    kind: LinkKind,
    libs: &Vec<&str>,
    windows: bool,
) -> (r: Vec<Directive>)
    ensures
        r.deep_view() == directives_spec(
            lib_dir@,
            include_dir@,
            flags.deep_view(),
            tiers.deep_view(),
            number,
            version,
            kind,
            libs.deep_view(),
            windows,
        ),
{
    let ghost head = seq![
        DirectiveView::LinkSearch(lib_dir@),
        DirectiveView::Include(include_dir@),
    ];
    let mut out: Vec<Directive> = Vec::new();
    out.push(Directive::LinkSearch(lib_dir.to_owned()));
    out.push(Directive::Include(include_dir.to_owned()));
    proof {
        assert(out.deep_view() =~= head);
    }
    let mut i: usize = 0;
    while i < flags.len()
        invariant
            0 <= i <= flags@.len(),
            out.deep_view() =~= head + flags.deep_view().subrange(0, i as int).map_values(
                |f: Seq<char>| DirectiveView::OsslConf(f),
            ),
        decreases flags@.len() - i,
    {
        let ghost prev = out.deep_view();
        out.push(Directive::OsslConf(flags[i].to_owned()));
        proof {
            assert(out.deep_view() =~= prev.push(DirectiveView::OsslConf(flags.deep_view()[i as int])));
            assert(out.deep_view() =~= head + flags.deep_view().subrange(0, i + 1).map_values(
                |f: Seq<char>| DirectiveView::OsslConf(f),
            ));
        }
        i = i + 1;
    }
    proof {
        assert(flags.deep_view().subrange(0, flags@.len() as int) =~= flags.deep_view());
    }
    let mut summary: Vec<String> = Vec::new();
    let mut j: usize = 0;
    while j < flags.len()
        invariant
            0 <= j <= flags@.len(),
            summary.deep_view() =~= flags.deep_view().subrange(0, j as int),
        decreases flags@.len() - j,
    {
        let ghost sprev = summary.deep_view();
        summary.push(flags[j].to_owned());
        proof {
            assert(summary.deep_view() =~= sprev.push(flags.deep_view()[j as int]));
            assert(summary.deep_view() =~= flags.deep_view().subrange(0, j + 1));
        }
        j = j + 1;
    }
    proof {
        assert(summary.deep_view() =~= flags.deep_view());
    }
    let ghost mid1 = head + flags.deep_view().map_values(
        |f: Seq<char>| DirectiveView::OsslConf(f),
    ) + seq![DirectiveView::ConfSummary(flags.deep_view())];
    let ghost prev = out.deep_view();
    out.push(Directive::ConfSummary(summary));
    proof {
        assert(out.deep_view() =~= prev.push(DirectiveView::ConfSummary(flags.deep_view())));
        assert(out.deep_view() =~= mid1);
    }
    let mut k: usize = 0;
    while k < tiers.len()
        invariant
            0 <= k <= tiers@.len(),
            out.deep_view() =~= mid1 + tiers.deep_view().subrange(0, k as int).map_values(
                |t: Seq<char>| DirectiveView::VersionCfg(t),
            ),
        decreases tiers@.len() - k,
    {
        let ghost prev = out.deep_view();
        out.push(Directive::VersionCfg(tiers[k].to_owned()));
        proof {
            assert(out.deep_view() =~= prev.push(
                DirectiveView::VersionCfg(tiers.deep_view()[k as int]),
            ));
            assert(out.deep_view() =~= mid1 + tiers.deep_view().subrange(0, k + 1).map_values(
                |t: Seq<char>| DirectiveView::VersionCfg(t),
            ));
        }
        k = k + 1;
    }
    proof {
        assert(tiers.deep_view().subrange(0, tiers@.len() as int) =~= tiers.deep_view());
    }
    let ghost mid2 = mid1 + tiers.deep_view().map_values(
        |t: Seq<char>| DirectiveView::VersionCfg(t),
    ) + seq![DirectiveView::VersionNumber(number), DirectiveView::VersionTag(version)];
    out.push(Directive::VersionNumber(number));
    out.push(Directive::VersionTag(version));
    proof {
        assert(out.deep_view() =~= mid2);
    }
    let mut m: usize = 0;
    while m < libs.len()
        invariant
            0 <= m <= libs@.len(),
            out.deep_view() =~= mid2 + libs.deep_view().subrange(0, m as int).map_values(
                |l: Seq<char>| DirectiveView::LinkLib(kind, l),
            ),
        decreases libs@.len() - m,
    {
        let ghost prev = out.deep_view();
        out.push(Directive::LinkLib(kind, libs[m].to_owned()));
        proof {
            assert(out.deep_view() =~= prev.push(
                DirectiveView::LinkLib(kind, libs.deep_view()[m as int]),
            ));
            assert(out.deep_view() =~= mid2 + libs.deep_view().subrange(0, m + 1).map_values(
                |l: Seq<char>| DirectiveView::LinkLib(kind, l),
            ));
        }
        m = m + 1;
    }
    proof {
        assert(libs.deep_view().subrange(0, libs@.len() as int) =~= libs.deep_view());
    }
    let is_static: bool = match kind {
        LinkKind::Static => true,
        LinkKind::Dylib => false,
    };
    if is_static && windows {
        let ghost prev = out.deep_view();
        out.push(Directive::LinkLib(LinkKind::Dylib, "gdi32".to_owned()));
        out.push(Directive::LinkLib(LinkKind::Dylib, "user32".to_owned()));
        out.push(Directive::LinkLib(LinkKind::Dylib, "crypt32".to_owned()));
        out.push(Directive::LinkLib(LinkKind::Dylib, "ws2_32".to_owned()));
        out.push(Directive::LinkLib(LinkKind::Dylib, "advapi32".to_owned()));
        proof {
            assert(out.deep_view() =~= prev + windows_static_extras());
        }
    }
    proof {
        assert(out.deep_view() =~= directives_spec(
            lib_dir@,
            include_dir@,
            flags.deep_view(),
            tiers.deep_view(),
            number,
            version,
            kind,
            libs.deep_view(),
            windows,
        ));
    }
    out
}

} // verus!
