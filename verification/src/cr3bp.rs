//! Discrete vocabulary of the circular restricted three-body engine: libration points,
//! crossing directions of event planes, manifold selectors, systems and orbit presets.

use vstd::prelude::*;
use crate::text::{lowercase, text_eq, to_lowercase};

verus! {

/// The 5 equilibrium Lagrange (libration) points of the CR3BP.
#[derive(Debug, Clone, Copy, PartialEq, Eq, Structural)]
pub enum LagrangePoint {
    /// Collinear point between primary P1 and secondary P2.
    L1,
    /// Collinear point beyond secondary P2.
    L2,
    /// Collinear point beyond primary P1.
    L3,
    /// Triangular leading point (60 degrees ahead of the secondary).
    L4,
    /// Triangular trailing point (60 degrees behind the secondary).
    L5,
}

impl LagrangePoint {
    /// The display name of the point.
    pub open spec fn label_spec(self) -> Seq<char> {
        match self {
            LagrangePoint::L1 => "L1"@,
            LagrangePoint::L2 => "L2"@,
            LagrangePoint::L3 => "L3"@,
            LagrangePoint::L4 => "L4"@,
            LagrangePoint::L5 => "L5"@,
        }
    }

    /// The display name of the point (`"L1"` to `"L5"`).
    pub fn label(&self) -> (r: String)
        ensures
            r@ == self.label_spec(),
    {
        match self {
            LagrangePoint::L1 => String::from_str("L1"),
            LagrangePoint::L2 => String::from_str("L2"),
            LagrangePoint::L3 => String::from_str("L3"),
            LagrangePoint::L4 => String::from_str("L4"),
            LagrangePoint::L5 => String::from_str("L5"),
        }
    }
}

/// Where a scalar event reading stands relative to zero.
#[derive(Debug, Clone, Copy, PartialEq, Eq, Structural)]
pub enum Sign {
    /// Strictly below zero.
    Negative,
    /// Equal to zero (either signed zero).
    Zero,
    /// Strictly above zero.
    Positive,
    /// Not comparable with zero (a NaN reading).
    Unordered,
}

/// Direction of zero-crossing for event detection.
#[derive(Debug, Clone, Copy, PartialEq, Eq, Structural)]
pub enum EventDirection {
    /// Trigger when the reading goes from negative to non-negative.
    Positive,
    /// Trigger when the reading goes from positive to non-positive.
    Negative,
    /// Trigger on any zero-crossing.
    Either,
}

/// The reading rises through zero: it was below and is now at or above.
pub open spec fn rises(prev: Sign, curr: Sign) -> bool {
    prev == Sign::Negative && (curr == Sign::Zero || curr == Sign::Positive)
}

/// The reading falls through zero: it was above and is now at or below.
pub open spec fn falls(prev: Sign, curr: Sign) -> bool {
    prev == Sign::Positive && (curr == Sign::Zero || curr == Sign::Negative)
}

impl EventDirection {
    /// Whether a step whose reading went from `prev` to `curr` is a crossing in this direction.
    pub open spec fn triggers(self, prev: Sign, curr: Sign) -> bool {
        match self {
            EventDirection::Positive => rises(prev, curr),
            EventDirection::Negative => falls(prev, curr),
            EventDirection::Either => rises(prev, curr) || falls(prev, curr),
        }
    }

    /// Checks if a transition of the event reading from `prev` to `curr` constitutes a valid
    /// crossing for this direction.
    pub fn is_triggered(&self, prev: Sign, curr: Sign) -> (r: bool)
        ensures
            r == self.triggers(prev, curr),
    {
        let up = prev == Sign::Negative && (curr == Sign::Zero || curr == Sign::Positive);
        let down = prev == Sign::Positive && (curr == Sign::Zero || curr == Sign::Negative);
        match self {
            EventDirection::Positive => up,
            EventDirection::Negative => down,
            EventDirection::Either => up || down,
        }
    }
}

/// An any-direction event fires exactly when a rising or a falling event fires, and no step
/// is both a rising and a falling crossing.
pub proof fn lemma_either_is_union(prev: Sign, curr: Sign)
    ensures
        EventDirection::Either.triggers(prev, curr) == (EventDirection::Positive.triggers(prev, curr)
            || EventDirection::Negative.triggers(prev, curr)),
        !(EventDirection::Positive.triggers(prev, curr) && EventDirection::Negative.triggers(
            prev,
            curr,
        )),
{
}

/// A reading that stays on one side of zero, or that is not comparable with zero at the end
/// of the step, never triggers an event.
pub proof fn lemma_no_crossing_without_sign_change(dir: EventDirection, prev: Sign, curr: Sign)
    requires
        prev == curr || curr == Sign::Unordered || prev == Sign::Zero || prev == Sign::Unordered,
    ensures
        !dir.triggers(prev, curr),
{
}

/// Direction of invariant manifold propagation.
#[derive(Debug, Clone, Copy, PartialEq, Eq, Structural)]
pub enum ManifoldType {
    /// Unstable manifold (departs the periodic orbit forward in time).
    Unstable,
    /// Stable manifold (arrives at the periodic orbit; integrated backward).
    Stable,
}

/// Manifold displacement branch.
#[derive(Debug, Clone, Copy, PartialEq, Eq, Structural)]
pub enum ManifoldBranch {
    /// Step off in the positive eigenvector direction.
    Positive,
    /// Step off in the negative eigenvector direction.
    Negative,
}

impl ManifoldType {
    /// `stable` selects the stable manifold; every other (lowercased) name the unstable one.
    pub open spec fn named(lower: Seq<char>) -> ManifoldType {
        if lower == "stable"@ {
            ManifoldType::Stable
        } else {
            ManifoldType::Unstable
        }
    }

    /// Selects the manifold for an already lowercased request name.
    pub fn from_lowercase_name(lower: &str) -> (r: ManifoldType)
        ensures
            r == Self::named(lower@),
    {
        if text_eq(lower, "stable") {
            ManifoldType::Stable
        } else {
            ManifoldType::Unstable
        }
    }

    /// Selects the manifold for a request name, compared after lowercasing.
    pub fn from_name(name: &str) -> (r: ManifoldType)
        ensures
            r == Self::named(lowercase(name@)),
    {
        let lower = to_lowercase(name);
        Self::from_lowercase_name(lower.as_str())
    }
}

impl ManifoldBranch {
    /// `negative` selects the negative branch; every other (lowercased) name the positive one.
    pub open spec fn named(lower: Seq<char>) -> ManifoldBranch {
        if lower == "negative"@ {
            ManifoldBranch::Negative
        } else {
            ManifoldBranch::Positive
        }
    }

    /// Selects the branch for an already lowercased request name.
    pub fn from_lowercase_name(lower: &str) -> (r: ManifoldBranch)
        ensures
            r == Self::named(lower@),
    {
        if text_eq(lower, "negative") {
            ManifoldBranch::Negative
        } else {
            ManifoldBranch::Positive
        }
    }

    /// Selects the branch for a request name, compared after lowercasing.
    pub fn from_name(name: &str) -> (r: ManifoldBranch)
        ensures
            r == Self::named(lowercase(name@)),
    {
        let lower = to_lowercase(name);
        Self::from_lowercase_name(lower.as_str())
    }
}

/// The three-body systems the planner knows.
#[derive(Debug, Clone, Copy, PartialEq, Eq, Structural)]
pub enum CelestialSystem {
    EarthMoon,
    SunEarth,
    SunJupiter,
}

/// The system a (lowercased) name selects; unknown names select Earth-Moon.
pub open spec fn system_named(lower: Seq<char>) -> CelestialSystem {
    if lower == "sun_earth"@ {
        CelestialSystem::SunEarth
    } else if lower == "sun_jupiter"@ {
        CelestialSystem::SunJupiter
    } else {
        CelestialSystem::EarthMoon
    }
}

/// Selects the system for an already lowercased name.
pub fn system_from_lowercase_name(lower: &str) -> (r: CelestialSystem)
    ensures
        r == system_named(lower@),
{
    if text_eq(lower, "sun_earth") {
        CelestialSystem::SunEarth
    } else if text_eq(lower, "sun_jupiter") {
        CelestialSystem::SunJupiter
    } else {
        CelestialSystem::EarthMoon
    }
}

/// Resolves a system name into a system, comparing after lowercasing.
pub fn resolve_system(name: &str) -> (r: CelestialSystem)
    ensures
        r == system_named(lowercase(name@)),
{
    let lower = to_lowercase(name);
    system_from_lowercase_name(lower.as_str())
}

/// The names documented for each system.
pub open spec fn system_names(sys: CelestialSystem) -> Seq<Seq<char>> {
    match sys {
        CelestialSystem::EarthMoon => seq!["earth_moon"@],
        CelestialSystem::SunEarth => seq!["sun_earth"@],
        CelestialSystem::SunJupiter => seq!["sun_jupiter"@],
    }
}

/// Every documented system name selects that system; a name that is none of them selects
/// Earth-Moon.
pub proof fn lemma_system_names_select(sys: CelestialSystem, k: int, n: Seq<char>)
    ensures
        0 <= k < system_names(sys).len() ==> system_named(system_names(sys)[k]) == sys,
        (n != "earth_moon"@ && n != "sun_earth"@ && n != "sun_jupiter"@) ==> system_named(n)
            == CelestialSystem::EarthMoon,
{
    reveal_strlit("earth_moon");
    reveal_strlit("sun_earth");
    reveal_strlit("sun_jupiter");
    if 0 <= k < system_names(sys).len() {
        assert(k == 0);
        assert(system_names(sys)[0] == match sys {
            CelestialSystem::EarthMoon => "earth_moon"@,
            CelestialSystem::SunEarth => "sun_earth"@,
            CelestialSystem::SunJupiter => "sun_jupiter"@,
        });
    }
}

/// `stable` and `unstable` select the stable and unstable manifolds, `negative` and
/// `positive` the two branches, and only `stable` (resp. `negative`) selects the stable
/// manifold (resp. the negative branch).
pub proof fn lemma_manifold_names_select(n: Seq<char>)
    ensures
        ManifoldType::named("stable"@) == ManifoldType::Stable,
        ManifoldType::named("unstable"@) == ManifoldType::Unstable,
        ManifoldType::named(n) == ManifoldType::Stable ==> n == "stable"@,
        ManifoldBranch::named("negative"@) == ManifoldBranch::Negative,
        ManifoldBranch::named("positive"@) == ManifoldBranch::Positive,
        ManifoldBranch::named(n) == ManifoldBranch::Negative ==> n == "negative"@,
{
    reveal_strlit("stable");
    reveal_strlit("unstable");
    reveal_strlit("negative");
    reveal_strlit("positive");
    assert("stable"@[0] == 's' && "unstable"@[0] == 'u');
    assert("negative"@[0] == 'n' && "positive"@[0] == 'p');
}

/// The number of a libration point (1 to 5).
pub open spec fn point_number(p: LagrangePoint) -> int {
    match p {
        LagrangePoint::L1 => 1,
        LagrangePoint::L2 => 2,
        LagrangePoint::L3 => 3,
        LagrangePoint::L4 => 4,
        LagrangePoint::L5 => 5,
    }
}

/// A point's label is `L` followed by the digit of its number.
pub proof fn lemma_lagrange_labels(p: LagrangePoint)
    ensures
        p.label_spec().len() == 2,
        p.label_spec()[0] == 'L',
        p.label_spec()[1] as u32 == 0x30 + point_number(p),
{
    reveal_strlit("L1");
    reveal_strlit("L2");
    reveal_strlit("L3");
    reveal_strlit("L4");
    reveal_strlit("L5");
}

/// Numeric side of zero of a reading (`Unordered` readings have none).
pub open spec fn side(x: Sign) -> int {
    match x {
        Sign::Negative => -1,
        Sign::Zero => 0,
        Sign::Positive => 1,
        Sign::Unordered => 2,
    }
}

/// A rising event fires when a reading below zero reaches zero or above, a falling event
/// when a reading above zero reaches zero or below; an unordered reading never fires.
pub proof fn lemma_event_directions(prev: Sign, curr: Sign)
    ensures
        EventDirection::Positive.triggers(prev, curr) <==> (side(prev) == -1 && 0 <= side(curr)
            <= 1),
        EventDirection::Negative.triggers(prev, curr) <==> (side(prev) == 1 && -1 <= side(curr)
            <= 0),
{
}

} // verus!
