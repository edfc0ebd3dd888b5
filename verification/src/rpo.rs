//! Rendezvous and proximity operations: maneuver profiles, reference targets and errors.

use vstd::prelude::*;
use crate::text::{lowercase, text_eq, to_lowercase};

verus! {

/// Errors occurring during RPO maneuver operations.
#[derive(Debug, Clone, PartialEq, Eq)]
pub enum RpoError {
    SingularTransferTime(String),
    ZeroTargetMeanMotion,
    InvalidConfiguration(String),
}

impl RpoError {
    /// The human-readable description of the error.
    pub open spec fn message_spec(&self) -> Seq<char> {
        match self {
            RpoError::SingularTransferTime(msg) => "Singular transfer duration: "@ + msg@,
            RpoError::ZeroTargetMeanMotion => "Target orbital mean motion cannot be zero"@,
            RpoError::InvalidConfiguration(msg) => "Invalid RPO configuration: "@ + msg@,
        }
    }

    /// The human-readable description of the error.
    pub fn message(&self) -> (r: String)
        ensures
            r@ == self.message_spec(),
    {
        match self {
            RpoError::SingularTransferTime(msg) => {
                let mut out = String::from_str("Singular transfer duration: ");
                out.append(msg.as_str());
                out
            },
            RpoError::ZeroTargetMeanMotion => String::from_str(
                "Target orbital mean motion cannot be zero",
            ),
            RpoError::InvalidConfiguration(msg) => {
                let mut out = String::from_str("Invalid RPO configuration: ");
                out.append(msg.as_str());
                out
            },
        }
    }
}

/// The maneuver profile to plan.
#[derive(Debug, Clone, Copy, PartialEq, Eq, Structural)]
pub enum RpoMode {
    /// Passive natural motion circumnavigation (2:1 inspection ellipse).
    NaturalMotionCircumnavigation,
    /// Multi-hop along-track (V-bar) glideslope.
    VBarGlideslope,
    /// Radial (R-bar) fail-safe approach.
    RBarGlideslope,
    /// Targeted two-impulse transfer.
    TwoImpulse,
}

/// The reference orbit of the target.
#[derive(Debug, Clone, Copy, PartialEq, Eq, Structural)]
pub enum RpoTarget {
    /// International Space Station orbit (400 km).
    Iss,
    /// Sun-synchronous LEO (700 km).
    Sso,
    /// Geostationary orbit (35,786 km).
    Geo,
    /// A circular orbit at a requested altitude.
    CustomAltitude,
}

/// Profile selected on the command line by a (lowercased) mode name.
pub open spec fn cli_mode_named(lower: Seq<char>) -> RpoMode {
    if lower == "nmc"@ || lower == "inspection"@ {
        RpoMode::NaturalMotionCircumnavigation
    } else if lower == "vbar"@ {
        RpoMode::VBarGlideslope
    } else if lower == "rbar"@ {
        RpoMode::RBarGlideslope
    } else {
        RpoMode::TwoImpulse
    }
}

/// Profile selected by a planning request's (lowercased) mode name.
pub open spec fn service_mode_named(lower: Seq<char>) -> RpoMode {
    if lower == "nmc"@ || lower == "inspection"@ {
        RpoMode::NaturalMotionCircumnavigation
    } else if lower == "vbar"@ || lower == "v_bar"@ {
        RpoMode::VBarGlideslope
    } else if lower == "rbar"@ || lower == "r_bar"@ {
        RpoMode::RBarGlideslope
    } else {
        RpoMode::TwoImpulse
    }
}

/// Target selected on the command line by a (lowercased) name; unknown names select the ISS.
pub open spec fn cli_target_named(lower: Seq<char>) -> RpoTarget {
    if lower == "sso"@ {
        RpoTarget::Sso
    } else if lower == "geo"@ {
        RpoTarget::Geo
    } else {
        RpoTarget::Iss
    }
}

/// Target selected by a planning request's (lowercased) name; unknown names ask for a
/// circular orbit at the requested altitude.
pub open spec fn service_target_named(lower: Seq<char>) -> RpoTarget {
    if lower == "iss"@ {
        RpoTarget::Iss
    } else if lower == "sso"@ {
        RpoTarget::Sso
    } else if lower == "geo"@ {
        RpoTarget::Geo
    } else {
        RpoTarget::CustomAltitude
    }
}

/// Command-line profile for an already lowercased mode name.
pub fn cli_mode_from_lowercase(lower: &str) -> (r: RpoMode)
    ensures
        r == cli_mode_named(lower@),
{
    if text_eq(lower, "nmc") || text_eq(lower, "inspection") {
        RpoMode::NaturalMotionCircumnavigation
    } else if text_eq(lower, "vbar") {
        RpoMode::VBarGlideslope
    } else if text_eq(lower, "rbar") {
        RpoMode::RBarGlideslope
    } else {
        RpoMode::TwoImpulse
    }
}

/// Command-line profile for a mode name, compared after lowercasing.
pub fn cli_mode(name: &str) -> (r: RpoMode)
    ensures
        r == cli_mode_named(lowercase(name@)),
{
    let lower = to_lowercase(name);
    cli_mode_from_lowercase(lower.as_str())
}

/// Request profile for an already lowercased mode name.
pub fn service_mode_from_lowercase(lower: &str) -> (r: RpoMode)
    ensures
        r == service_mode_named(lower@),
{
    if text_eq(lower, "nmc") || text_eq(lower, "inspection") {
        RpoMode::NaturalMotionCircumnavigation
    } else if text_eq(lower, "vbar") || text_eq(lower, "v_bar") {
        RpoMode::VBarGlideslope
    } else if text_eq(lower, "rbar") || text_eq(lower, "r_bar") {
        RpoMode::RBarGlideslope
    } else {
        RpoMode::TwoImpulse
    }
}

/// Request profile for an optional mode name (absent means `two_impulse`), compared after
/// lowercasing.
pub fn service_mode(name: Option<&str>) -> (r: RpoMode)
    ensures
        r == service_mode_named(
            lowercase(
                match name {
                    Some(n) => n@,
                    None => "two_impulse"@,
                },
            ),
        ),
{
    let lower = match name {
        Some(n) => to_lowercase(n),
        None => to_lowercase("two_impulse"),
    };
    service_mode_from_lowercase(lower.as_str())
}

/// Command-line target for an already lowercased name.
pub fn cli_target_from_lowercase(lower: &str) -> (r: RpoTarget)
    ensures
        r == cli_target_named(lower@),
{
    if text_eq(lower, "sso") {
        RpoTarget::Sso
    } else if text_eq(lower, "geo") {
        RpoTarget::Geo
    } else {
        RpoTarget::Iss
    }
}

/// Command-line target for a name, compared after lowercasing.
pub fn cli_target(name: &str) -> (r: RpoTarget)
    ensures
        r == cli_target_named(lowercase(name@)),
{
    let lower = to_lowercase(name);
    cli_target_from_lowercase(lower.as_str())
}

/// Request target for an already lowercased name.
pub fn service_target_from_lowercase(lower: &str) -> (r: RpoTarget)
    ensures
        r == service_target_named(lower@),
{
    if text_eq(lower, "iss") {
        RpoTarget::Iss
    } else if text_eq(lower, "sso") {
        RpoTarget::Sso
    } else if text_eq(lower, "geo") {
        RpoTarget::Geo
    } else {
        RpoTarget::CustomAltitude
    }
}

/// Request target for an optional name (absent means `iss`), compared after lowercasing.
pub fn service_target(name: Option<&str>) -> (r: RpoTarget)
    ensures
        r == service_target_named(
            lowercase(
                match name {
                    Some(n) => n@,
                    None => "iss"@,
                },
            ),
        ),
{
    let lower = match name {
        Some(n) => to_lowercase(n),
        None => to_lowercase("iss"),
    };
    service_target_from_lowercase(lower.as_str())
}

/// The names a planning request documents for each profile.
pub open spec fn service_mode_names(m: RpoMode) -> Seq<Seq<char>> {
    match m {
        RpoMode::NaturalMotionCircumnavigation => seq!["nmc"@, "inspection"@],
        RpoMode::VBarGlideslope => seq!["vbar"@, "v_bar"@],
        RpoMode::RBarGlideslope => seq!["rbar"@, "r_bar"@],
        RpoMode::TwoImpulse => seq!["two_impulse"@],
    }
}

/// The names the command line documents for each profile.
pub open spec fn cli_mode_names(m: RpoMode) -> Seq<Seq<char>> {
    match m {
        RpoMode::NaturalMotionCircumnavigation => seq!["nmc"@, "inspection"@],
        RpoMode::VBarGlideslope => seq!["vbar"@],
        RpoMode::RBarGlideslope => seq!["rbar"@],
        RpoMode::TwoImpulse => seq!["two-impulse"@],
    }
}

/// The names documented for each target orbit, on the command line and in requests.
pub open spec fn target_names(t: RpoTarget) -> Seq<Seq<char>> {
    match t {
        RpoTarget::Iss => seq!["iss"@],
        RpoTarget::Sso => seq!["sso"@],
        RpoTarget::Geo => seq!["geo"@],
        RpoTarget::CustomAltitude => seq![],
    }
}

/// Every documented request name of a profile selects that profile, and every documented
/// command-line name selects it on the command line.
pub proof fn lemma_mode_names_select(m: RpoMode, k: int)
    ensures
        0 <= k < service_mode_names(m).len() ==> service_mode_named(service_mode_names(m)[k]) == m,
        0 <= k < cli_mode_names(m).len() ==> cli_mode_named(cli_mode_names(m)[k]) == m,
{
    reveal_strlit("nmc");
    reveal_strlit("inspection");
    reveal_strlit("vbar");
    reveal_strlit("v_bar");
    reveal_strlit("rbar");
    reveal_strlit("r_bar");
    reveal_strlit("two_impulse");
    reveal_strlit("two-impulse");
    reveal_strlit("iss");
    reveal_strlit("sso");
    reveal_strlit("geo");
    assert("nmc"@[0] == 'n');
    assert("inspection"@[0] == 'i');
    assert("vbar"@[0] == 'v');
    assert("v_bar"@[0] == 'v');
    assert("rbar"@[0] == 'r');
    assert("r_bar"@[0] == 'r');
    assert("two_impulse"@[0] == 't');
    assert("two-impulse"@[0] == 't');
    assert("iss"@[0] == 'i');
    assert("sso"@[0] == 's');
    assert("geo"@[0] == 'g');
    if k == 0 {
        assert(service_mode_names(m)[0] == match m {
            RpoMode::NaturalMotionCircumnavigation => "nmc"@,
            RpoMode::VBarGlideslope => "vbar"@,
            RpoMode::RBarGlideslope => "rbar"@,
            RpoMode::TwoImpulse => "two_impulse"@,
        });
    } else if k == 1 {
        assert(service_mode_names(m).len() > 1 ==> service_mode_names(m)[1] == match m {
            RpoMode::NaturalMotionCircumnavigation => "inspection"@,
            RpoMode::VBarGlideslope => "v_bar"@,
            _ => "r_bar"@,
        });
    }
    if k == 0 {
        assert(cli_mode_names(m)[0] == match m {
            RpoMode::NaturalMotionCircumnavigation => "nmc"@,
            RpoMode::VBarGlideslope => "vbar"@,
            RpoMode::RBarGlideslope => "rbar"@,
            RpoMode::TwoImpulse => "two-impulse"@,
        });
    } else if k == 1 {
        assert(cli_mode_names(m).len() > 1 ==> cli_mode_names(m)[1] == "inspection"@);
    }
}

/// A name that the command line reads as a particular profile (not the two-impulse
/// fallback) selects the same profile in a planning request.
pub proof fn lemma_cli_mode_names_agree_with_requests(n: Seq<char>)
    ensures
        cli_mode_named(n) != RpoMode::TwoImpulse ==> service_mode_named(n) == cli_mode_named(n),
{
    reveal_strlit("nmc");
    reveal_strlit("inspection");
    reveal_strlit("vbar");
    reveal_strlit("v_bar");
    reveal_strlit("rbar");
    reveal_strlit("r_bar");
    reveal_strlit("two_impulse");
    reveal_strlit("two-impulse");
    reveal_strlit("iss");
    reveal_strlit("sso");
    reveal_strlit("geo");
    assert("nmc"@[0] == 'n');
    assert("inspection"@[0] == 'i');
    assert("vbar"@[0] == 'v');
    assert("v_bar"@[0] == 'v');
    assert("rbar"@[0] == 'r');
    assert("r_bar"@[0] == 'r');
    assert("two_impulse"@[0] == 't');
    assert("two-impulse"@[0] == 't');
    assert("iss"@[0] == 'i');
    assert("sso"@[0] == 's');
    assert("geo"@[0] == 'g');
    if n == "nmc"@ {
    } else if n == "inspection"@ {
    } else if n == "vbar"@ {
    } else if n == "rbar"@ {
    }
}

/// A request name that is none of the documented profile names asks for the two-impulse
/// transfer.
pub proof fn lemma_unknown_mode_is_two_impulse(n: Seq<char>)
    requires
        forall|m: RpoMode, k: int|
            0 <= k < service_mode_names(m).len() ==> n != #[trigger] service_mode_names(m)[k],
    ensures
        service_mode_named(n) == RpoMode::TwoImpulse,
{
    reveal_strlit("nmc");
    reveal_strlit("inspection");
    reveal_strlit("vbar");
    reveal_strlit("v_bar");
    reveal_strlit("rbar");
    reveal_strlit("r_bar");
    reveal_strlit("two_impulse");
    reveal_strlit("two-impulse");
    reveal_strlit("iss");
    reveal_strlit("sso");
    reveal_strlit("geo");
    assert("nmc"@[0] == 'n');
    assert("inspection"@[0] == 'i');
    assert("vbar"@[0] == 'v');
    assert("v_bar"@[0] == 'v');
    assert("rbar"@[0] == 'r');
    assert("r_bar"@[0] == 'r');
    assert("two_impulse"@[0] == 't');
    assert("two-impulse"@[0] == 't');
    assert("iss"@[0] == 'i');
    assert("sso"@[0] == 's');
    assert("geo"@[0] == 'g');
    assert(n != service_mode_names(RpoMode::NaturalMotionCircumnavigation)[0]);
    assert(n != service_mode_names(RpoMode::NaturalMotionCircumnavigation)[1]);
    assert(n != service_mode_names(RpoMode::VBarGlideslope)[0]);
    assert(n != service_mode_names(RpoMode::VBarGlideslope)[1]);
    assert(n != service_mode_names(RpoMode::RBarGlideslope)[0]);
    assert(n != service_mode_names(RpoMode::RBarGlideslope)[1]);
}

/// Every documented target name selects that target, on the command line and in requests;
/// any other name selects the ISS on the command line and a circular orbit at the
/// requested altitude in a request.
pub proof fn lemma_target_names_select(t: RpoTarget, k: int, n: Seq<char>)
    ensures
        0 <= k < target_names(t).len() ==> cli_target_named(target_names(t)[k]) == t
            && service_target_named(target_names(t)[k]) == t,
        (n != "iss"@ && n != "sso"@ && n != "geo"@) ==> cli_target_named(n) == RpoTarget::Iss
            && service_target_named(n) == RpoTarget::CustomAltitude,
{
    reveal_strlit("nmc");
    reveal_strlit("inspection");
    reveal_strlit("vbar");
    reveal_strlit("v_bar");
    reveal_strlit("rbar");
    reveal_strlit("r_bar");
    reveal_strlit("two_impulse");
    reveal_strlit("two-impulse");
    reveal_strlit("iss");
    reveal_strlit("sso");
    reveal_strlit("geo");
    assert("nmc"@[0] == 'n');
    assert("inspection"@[0] == 'i');
    assert("vbar"@[0] == 'v');
    assert("v_bar"@[0] == 'v');
    assert("rbar"@[0] == 'r');
    assert("r_bar"@[0] == 'r');
    assert("two_impulse"@[0] == 't');
    assert("two-impulse"@[0] == 't');
    assert("iss"@[0] == 'i');
    assert("sso"@[0] == 's');
    assert("geo"@[0] == 'g');
    if 0 <= k < target_names(t).len() {
        assert(k == 0);
        assert(target_names(t)[0] == match t {
            RpoTarget::Iss => "iss"@,
            RpoTarget::Sso => "sso"@,
            _ => "geo"@,
        });
    }
}

} // verus!
