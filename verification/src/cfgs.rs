//! Derivation of the version-gated conditional-compilation tiers.
//!
//! Each tier is enabled by an inclusive `actual >= threshold`
//! comparison, evaluated independently, so a newer version always
//! enables a superset of an older version's tiers.

use vstd::prelude::*;

use crate::version::{VERSION_1_1_1, VERSION_1_1_1B, VERSION_1_1_1C, VERSION_3_0_0};

verus! {

/// The tiers a decoded version enables, newest threshold first.
pub open spec fn cfgs_spec(v: u64) -> Seq<Seq<char>> {
    (if v >= VERSION_3_0_0 {
        seq!["ossl300"@]
    } else {
        seq![]
    }) + (if v >= VERSION_1_1_1C {
        seq!["ossl111c"@]
    } else {
        seq![]
    }) + (if v >= VERSION_1_1_1B {
        seq!["ossl111b"@]
    } else {
        seq![]
    }) + (if v >= VERSION_1_1_1 {
        seq!["ossl111"@]
    } else {
        seq![]
    })
}

/// The conditional-compilation tiers enabled by a decoded version.
pub fn get(openssl_version: Option<u64>) -> (r: Vec<&'static str>)
    requires
        openssl_version is Some,
    ensures
        r.deep_view() == cfgs_spec(openssl_version->0),
{
    let mut cfgs: Vec<&'static str> = Vec::new();

    let openssl_version: u64 = openssl_version.unwrap();

    if openssl_version >= VERSION_3_0_0 {
        cfgs.push("ossl300");
    }
    if openssl_version >= VERSION_1_1_1C {
        cfgs.push("ossl111c");
    }
    if openssl_version >= VERSION_1_1_1B {
        cfgs.push("ossl111b");
    }
    if openssl_version >= VERSION_1_1_1 {
        cfgs.push("ossl111");
    }

    proof {
        assert(cfgs.deep_view() =~= cfgs_spec(openssl_version));
    }
    cfgs
}

/// A tier is enabled exactly when the version reaches its threshold.
pub proof fn lemma_tier_enabled(v: u64, t: Seq<char>)
    ensures
        cfgs_spec(v).contains(t) <==> ((v >= VERSION_3_0_0 && t == "ossl300"@) || (v
            >= VERSION_1_1_1C && t == "ossl111c"@) || (v >= VERSION_1_1_1B && t == "ossl111b"@) || (
        v >= VERSION_1_1_1 && t == "ossl111"@)),
{
    let s = cfgs_spec(v);
    let a: int = if v >= VERSION_3_0_0 {
        1
    } else {
        0
    };
    let b: int = a + (if v >= VERSION_1_1_1C {
        1int
    } else {
        0int
    });
    let c: int = b + (if v >= VERSION_1_1_1B {
        1int
    } else {
        0int
    });
    if v >= VERSION_3_0_0 && t == "ossl300"@ {
        assert(s[0] == t);
    }
    if v >= VERSION_1_1_1C && t == "ossl111c"@ {
        assert(s[a] == t);
    }
    if v >= VERSION_1_1_1B && t == "ossl111b"@ {
        assert(s[b] == t);
    }
    if v >= VERSION_1_1_1 && t == "ossl111"@ {
        assert(s[c] == t);
    }
}

/// A newer version enables every tier an older one does: the enabled
/// tier sets grow monotonically with the decoded version.
pub proof fn lemma_tiers_monotonic(v1: u64, v2: u64)
    requires
        v1 <= v2,
    ensures
        forall|t: Seq<char>| cfgs_spec(v1).contains(t) ==> cfgs_spec(v2).contains(t),
{
    assert forall|t: Seq<char>| cfgs_spec(v1).contains(t) implies cfgs_spec(v2).contains(t) by {
        lemma_tier_enabled(v1, t);
        lemma_tier_enabled(v2, t);
    }
}

} // verus!
