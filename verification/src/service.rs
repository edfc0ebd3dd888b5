//! Decisions of the local planning service: health report, static page lookup, orbit
//! sources of transfer requests, and the CCSDS orbit ephemeris message framing.

use vstd::prelude::*;
use crate::text::{lowercase, text_eq, to_lowercase};

verus! {

/// Health report of the service.
pub struct HealthResponse {
    pub status: &'static str,
    pub version: &'static str,
    pub engine: &'static str,
    pub capabilities: Vec<&'static str>,
}

/// The capabilities the service reports, in order.
pub open spec fn capability_list() -> Seq<Seq<char>> {
    seq![
        "Euler Quintic Lagrange Root Solving (L1-L5)"@,
        "Symplectic State Transition Matrix (STM) Variational Integration"@,
        "Single-Shooting Planar Lyapunov Orbit Differential Correction"@,
        "Two-Variable 3D Halo Orbit Differential Correction"@,
        "Monodromy Matrix Stability & Floquet Eigendecomposition"@,
        "Invariant Manifold Tube Generation (W^u, W^s)"@,
        "AAS 20-459 Low-Energy Multi-Body Transfer Engine"@,
    ]
}

/// The health report: status `ok`, version `0.2.0`, the engine name and its capabilities.
pub fn health_report() -> (h: HealthResponse)
    ensures
        h.status@ == "ok"@,
        h.version@ == "0.2.0"@,
        h.engine@ == "CR3BP High-Precision Astrodynamics Engine (AAS 20-459)"@,
        h.capabilities@.len() == capability_list().len(),
        forall|k: int|
            0 <= k < capability_list().len() ==> #[trigger] h.capabilities@[k]@
                == capability_list()[k],
{
    let capabilities = vec![
        "Euler Quintic Lagrange Root Solving (L1-L5)",
        "Symplectic State Transition Matrix (STM) Variational Integration",
        "Single-Shooting Planar Lyapunov Orbit Differential Correction",
        "Two-Variable 3D Halo Orbit Differential Correction",
        "Monodromy Matrix Stability & Floquet Eigendecomposition",
        "Invariant Manifold Tube Generation (W^u, W^s)",
        "AAS 20-459 Low-Energy Multi-Body Transfer Engine",
    ];
    HealthResponse {
        status: "ok",
        version: "0.2.0",
        engine: "CR3BP High-Precision Astrodynamics Engine (AAS 20-459)",
        capabilities,
    }
}

/// Where a static page was found relative to the workspace root.
#[derive(Debug, Clone, Copy, PartialEq, Eq, Structural)]
pub enum HtmlLocation {
    /// `root/filename`.
    Direct,
    /// `root/../../filename` (running inside a crate directory).
    TwoLevelsUp,
    /// `root/../filename`.
    OneLevelUp,
}

/// Picks where a static page is served from, given which of the candidate paths exist:
/// the root itself first, then two levels up, then one level up; when none exists the
/// path at the root is used (and reading it reports the missing page).
pub fn resolve_html_path(direct_exists: bool, two_up_exists: bool, one_up_exists: bool) -> (r:
    HtmlLocation)
    ensures
        r == (if direct_exists {
            HtmlLocation::Direct
        } else if two_up_exists {
            HtmlLocation::TwoLevelsUp
        } else if one_up_exists {
            HtmlLocation::OneLevelUp
        } else {
            HtmlLocation::Direct
        }),
{
    if direct_exists {
        HtmlLocation::Direct
    } else if two_up_exists {
        HtmlLocation::TwoLevelsUp
    } else if one_up_exists {
        HtmlLocation::OneLevelUp
    } else {
        HtmlLocation::Direct
    }
}

/// Named reference states offered for transfer requests.
#[derive(Debug, Clone, Copy, PartialEq, Eq, Structural)]
pub enum OrbitPreset {
    EarthGeostationary,
    EarthGtoApogee,
    TransLunarInjection,
    EarthMoonL1Halo,
    EarthMoonL1Lyapunov,
    LowLunarOrbit,
    LunarGatewayNrho,
    EarthMoonL2Halo,
    EarthMoonL2Lyapunov,
    EarthMoonL4,
    EarthMoonL5,
    SunEarthL2Halo,
}

/// The preset a (lowercased) name selects; unknown names select the Earth-Moon L1
/// Lyapunov state.
pub open spec fn preset_named(lower: Seq<char>) -> OrbitPreset {
    if lower == "earth_geo"@ || lower == "geostationary_orbit"@ {
        OrbitPreset::EarthGeostationary
    } else if lower == "earth_gto_apogee"@ {
        OrbitPreset::EarthGtoApogee
    } else if lower == "trans_lunar_injection"@ || lower == "tli_staging"@ {
        OrbitPreset::TransLunarInjection
    } else if lower == "earth_moon_l1_halo"@ {
        OrbitPreset::EarthMoonL1Halo
    } else if lower == "earth_moon_l1_lyapunov"@ {
        OrbitPreset::EarthMoonL1Lyapunov
    } else if lower == "low_lunar_orbit"@ {
        OrbitPreset::LowLunarOrbit
    } else if lower == "lunar_gateway_nrho"@ {
        OrbitPreset::LunarGatewayNrho
    } else if lower == "earth_moon_l2_halo"@ {
        OrbitPreset::EarthMoonL2Halo
    } else if lower == "earth_moon_l2_lyapunov"@ {
        OrbitPreset::EarthMoonL2Lyapunov
    } else if lower == "earth_moon_l4"@ {
        OrbitPreset::EarthMoonL4
    } else if lower == "earth_moon_l5"@ {
        OrbitPreset::EarthMoonL5
    } else if lower == "sun_earth_l2_halo"@ {
        OrbitPreset::SunEarthL2Halo
    } else {
        OrbitPreset::EarthMoonL1Lyapunov
    }
}

/// Selects the preset for an already lowercased name.
pub fn preset_from_lowercase_name(lower: &str) -> (r: OrbitPreset)
    ensures
        r == preset_named(lower@),
{
    if text_eq(lower, "earth_geo") || text_eq(lower, "geostationary_orbit") {
        OrbitPreset::EarthGeostationary
    } else if text_eq(lower, "earth_gto_apogee") {
        OrbitPreset::EarthGtoApogee
    } else if text_eq(lower, "trans_lunar_injection") || text_eq(lower, "tli_staging") {
        OrbitPreset::TransLunarInjection
    } else if text_eq(lower, "earth_moon_l1_halo") {
        OrbitPreset::EarthMoonL1Halo
    } else if text_eq(lower, "earth_moon_l1_lyapunov") {
        OrbitPreset::EarthMoonL1Lyapunov
    } else if text_eq(lower, "low_lunar_orbit") {
        OrbitPreset::LowLunarOrbit
    } else if text_eq(lower, "lunar_gateway_nrho") {
        OrbitPreset::LunarGatewayNrho
    } else if text_eq(lower, "earth_moon_l2_halo") {
        OrbitPreset::EarthMoonL2Halo
    } else if text_eq(lower, "earth_moon_l2_lyapunov") {
        OrbitPreset::EarthMoonL2Lyapunov
    } else if text_eq(lower, "earth_moon_l4") {
        OrbitPreset::EarthMoonL4
    } else if text_eq(lower, "earth_moon_l5") {
        OrbitPreset::EarthMoonL5
    } else if text_eq(lower, "sun_earth_l2_halo") {
        OrbitPreset::SunEarthL2Halo
    } else {
        OrbitPreset::EarthMoonL1Lyapunov
    }
}

/// Where the state of a transfer end point comes from.
#[derive(Debug, Clone, Copy, PartialEq, Eq, Structural)]
pub enum OrbitSource {
    /// The state given explicitly in the request.
    Custom,
    /// A named preset.
    Preset(OrbitPreset),
}

/// The text of an optional name, or `fallback` when it is absent.
pub open spec fn name_or(name: Option<&str>, fallback: Seq<char>) -> Seq<char> {
    match name {
        Some(n) => n@,
        None => fallback,
    }
}

/// Resolves the state source of a transfer end point: an explicit state wins; otherwise the
/// preset named in the request (or `fallback` when it names none), compared after
/// lowercasing.
pub fn resolve_orbit_state(has_custom_state: bool, preset_name: Option<&str>, fallback: &str) -> (r:
    OrbitSource)
    ensures
        r == (if has_custom_state {
            OrbitSource::Custom
        } else {
            OrbitSource::Preset(preset_named(lowercase(name_or(preset_name, fallback@))))
        }),
{
    if has_custom_state {
        return OrbitSource::Custom;
    }
    let lower = match preset_name {
        Some(n) => to_lowercase(n),
        None => to_lowercase(fallback),
    };
    OrbitSource::Preset(preset_from_lowercase_name(lower.as_str()))
}

/// How the impulsive trans-lunar injection of a transfer request is staged.
#[derive(Debug, Clone, Copy, PartialEq, Eq, Structural)]
pub enum TliStaging {
    /// From a parking orbit at the altitude given in the request.
    RequestedAltitude,
    /// From the 300 km default parking orbit (the origin preset is a trans-lunar injection).
    DefaultParkingOrbit,
    /// No injection is added.
    NoInjection,
}

/// Whether a (lowercased) origin preset name stands for trans-lunar injection staging.
pub open spec fn is_tli_preset(lower: Seq<char>) -> bool {
    lower == "trans_lunar_injection"@ || lower == "tli_staging"@
}

/// Whether an already lowercased origin preset name stands for trans-lunar injection staging.
pub fn is_tli_preset_name(lower: &str) -> (b: bool)
    ensures
        b == is_tli_preset(lower@),
{
    text_eq(lower, "trans_lunar_injection") || text_eq(lower, "tli_staging")
}

/// Decides the trans-lunar injection staging: a requested parking altitude wins; otherwise
/// an origin preset named `trans_lunar_injection` or `tli_staging` (after lowercasing)
/// stages from the default parking orbit.
pub fn tli_staging(altitude_requested: bool, origin_preset: Option<&str>) -> (r: TliStaging)
    ensures
        r == (if altitude_requested {
            TliStaging::RequestedAltitude
        } else if is_tli_preset(lowercase(name_or(origin_preset, ""@))) {
            TliStaging::DefaultParkingOrbit
        } else {
            TliStaging::NoInjection
        }),
{
    if altitude_requested {
        return TliStaging::RequestedAltitude;
    }
    let lower = match origin_preset {
        Some(n) => to_lowercase(n),
        None => to_lowercase(""),
    };
    if is_tli_preset_name(lower.as_str()) {
        TliStaging::DefaultParkingOrbit
    } else {
        TliStaging::NoInjection
    }
}

/// Metadata of an orbit ephemeris message.
pub struct OemMetadata {
    pub object_name: String,
    pub object_id: String,
    pub center_name: String,
    pub ref_frame: String,
    pub time_system: String,
    pub start_date: String,
}

fn text_or(name: Option<&str>, fallback: &str) -> (r: String)
    ensures
        r@ == name_or(name, fallback@),
{
    match name {
        Some(n) => String::from_str(n),
        None => String::from_str(fallback),
    }
}

impl OemMetadata {
    /// Fills in the metadata of an export request; each absent field takes its default
    /// (`DEEP_SPACE_TRANSFER_VEHICLE`, `2026-999A`, `EARTH-MOON BARYCENTER`, `EME2000`,
    /// `UTC`, `2026-09-22T00:00:00.000`).
    pub fn resolve(
        object_name: Option<&str>,
        object_id: Option<&str>,
        center_name: Option<&str>,
        ref_frame: Option<&str>,
        time_system: Option<&str>,
        start_date: Option<&str>,
    ) -> (m: OemMetadata)
        ensures
            m.object_name@ == name_or(object_name, "DEEP_SPACE_TRANSFER_VEHICLE"@),
            m.object_id@ == name_or(object_id, "2026-999A"@),
            m.center_name@ == name_or(center_name, "EARTH-MOON BARYCENTER"@),
            m.ref_frame@ == name_or(ref_frame, "EME2000"@),
            m.time_system@ == name_or(time_system, "UTC"@),
            m.start_date@ == name_or(start_date, "2026-09-22T00:00:00.000"@),
    {
        OemMetadata {
            object_name: text_or(object_name, "DEEP_SPACE_TRANSFER_VEHICLE"),
            object_id: text_or(object_id, "2026-999A"),
            center_name: text_or(center_name, "EARTH-MOON BARYCENTER"),
            ref_frame: text_or(ref_frame, "EME2000"),
            time_system: text_or(time_system, "UTC"),
            start_date: text_or(start_date, "2026-09-22T00:00:00.000"),
        }
    }
}

/// Header and metadata block of an orbit ephemeris message (CCSDS OEM 2.0), given the
/// already formatted relative stop time in days.
pub open spec fn oem_header_spec(m: OemMetadata, stop_days: Seq<char>) -> Seq<char> {
    "CCSDS_OEM_VERS = 2.0\n"@
        + "CREATION_DATE  = 2026-09-22T12:00:00.000\n"@
        + "ORIGINATOR     = SBM_ASTRODYNAMICS_FLIGHT_PLANNER\n\n"@
        + "META_START\n"@
        + "OBJECT_NAME          = "@ + m.object_name@ + "\n"@
        + "OBJECT_ID            = "@ + m.object_id@ + "\n"@
        + "CENTER_NAME          = "@ + m.center_name@ + "\n"@
        + "REF_FRAME            = "@ + m.ref_frame@ + "\n"@
        + "TIME_SYSTEM          = "@ + m.time_system@ + "\n"@
        + "START_TIME           = "@ + m.start_date@ + "\n"@
        + "STOP_TIME_REL_DAYS   = "@ + stop_days + "\n"@
        + "META_STOP\n\n"@
}

fn push_line(out: &mut String, label: &str, value: &str)
    ensures
        final(out)@ == old(out)@ + label@ + value@ + "\n"@,
{
    out.append(label);
    out.append(value);
    out.append("\n");
}

/// Builds the header and metadata block of an orbit ephemeris message; the data lines
/// follow it.
pub fn oem_header(m: &OemMetadata, stop_days: &str) -> (r: String)
    ensures
        r@ == oem_header_spec(*m, stop_days@),
{
    let mut out = String::from_str("CCSDS_OEM_VERS = 2.0\n");
    out.append("CREATION_DATE  = 2026-09-22T12:00:00.000\n");
    out.append("ORIGINATOR     = SBM_ASTRODYNAMICS_FLIGHT_PLANNER\n\n");
    out.append("META_START\n");
    push_line(&mut out, "OBJECT_NAME          = ", m.object_name.as_str());
    push_line(&mut out, "OBJECT_ID            = ", m.object_id.as_str());
    push_line(&mut out, "CENTER_NAME          = ", m.center_name.as_str());
    push_line(&mut out, "REF_FRAME            = ", m.ref_frame.as_str());
    push_line(&mut out, "TIME_SYSTEM          = ", m.time_system.as_str());
    push_line(&mut out, "START_TIME           = ", m.start_date.as_str());
    push_line(&mut out, "STOP_TIME_REL_DAYS   = ", stop_days);
    out.append("META_STOP\n\n");
    out
}

/// Column header line of the comma-separated trajectory export.
pub fn csv_header() -> (r: String)
    ensures
        r@ == "time_days,x_km,y_km,z_km,vx_km_s,vy_km_s,vz_km_s,thrust_mn,cumulative_dv_m_s\n"@,
{
    String::from_str("time_days,x_km,y_km,z_km,vx_km_s,vy_km_s,vz_km_s,thrust_mn,cumulative_dv_m_s\n")
}

/// Response of a trajectory export.
pub struct ExportOemResponse {
    pub success: bool,
    pub format: &'static str,
    pub oem_content: String,
    pub csv_content: String,
}

impl ExportOemResponse {
    /// A successful export of the given message and table.
    pub fn new(oem_content: String, csv_content: String) -> (r: ExportOemResponse)
        ensures
            r.success,
            r.format@ == "CCSDS OEM v2.0 & RFC 4180 CSV"@,
            r.oem_content == oem_content,
            r.csv_content == csv_content,
    {
        ExportOemResponse {
            success: true,
            format: "CCSDS OEM v2.0 & RFC 4180 CSV",
            oem_content,
            csv_content,
        }
    }
}

/// The request names documented for each preset.
pub open spec fn preset_names(p: OrbitPreset) -> Seq<Seq<char>> {
    match p {
        OrbitPreset::EarthGeostationary => seq!["earth_geo"@, "geostationary_orbit"@],
        OrbitPreset::EarthGtoApogee => seq!["earth_gto_apogee"@],
        OrbitPreset::TransLunarInjection => seq!["trans_lunar_injection"@, "tli_staging"@],
        OrbitPreset::EarthMoonL1Halo => seq!["earth_moon_l1_halo"@],
        OrbitPreset::EarthMoonL1Lyapunov => seq!["earth_moon_l1_lyapunov"@],
        OrbitPreset::LowLunarOrbit => seq!["low_lunar_orbit"@],
        OrbitPreset::LunarGatewayNrho => seq!["lunar_gateway_nrho"@],
        OrbitPreset::EarthMoonL2Halo => seq!["earth_moon_l2_halo"@],
        OrbitPreset::EarthMoonL2Lyapunov => seq!["earth_moon_l2_lyapunov"@],
        OrbitPreset::EarthMoonL4 => seq!["earth_moon_l4"@],
        OrbitPreset::EarthMoonL5 => seq!["earth_moon_l5"@],
        OrbitPreset::SunEarthL2Halo => seq!["sun_earth_l2_halo"@],
    }
}

/// Every documented name of a preset selects that preset.
pub proof fn lemma_preset_names_select(p: OrbitPreset, k: int)
    requires
        0 <= k < preset_names(p).len(),
    ensures
        preset_named(preset_names(p)[k]) == p,
{
    reveal_strlit("earth_geo");
    reveal_strlit("geostationary_orbit");
    reveal_strlit("earth_gto_apogee");
    reveal_strlit("trans_lunar_injection");
    reveal_strlit("tli_staging");
    reveal_strlit("earth_moon_l1_halo");
    reveal_strlit("earth_moon_l1_lyapunov");
    reveal_strlit("low_lunar_orbit");
    reveal_strlit("lunar_gateway_nrho");
    reveal_strlit("earth_moon_l2_halo");
    reveal_strlit("earth_moon_l2_lyapunov");
    reveal_strlit("earth_moon_l4");
    reveal_strlit("earth_moon_l5");
    reveal_strlit("sun_earth_l2_halo");
    assert("earth_geo"@[0] == 'e');
    assert("geostationary_orbit"@[0] == 'g');
    assert("geostationary_orbit"@[12] == 'y');
    assert("earth_gto_apogee"@[0] == 'e');
    assert("earth_gto_apogee"@[12] == 'o');
    assert("trans_lunar_injection"@[0] == 't');
    assert("trans_lunar_injection"@[12] == 'i');
    assert("tli_staging"@[0] == 't');
    assert("earth_moon_l1_halo"@[0] == 'e');
    assert("earth_moon_l1_halo"@[12] == '1');
    assert("earth_moon_l1_lyapunov"@[0] == 'e');
    assert("earth_moon_l1_lyapunov"@[12] == '1');
    assert("low_lunar_orbit"@[0] == 'l');
    assert("low_lunar_orbit"@[12] == 'b');
    assert("lunar_gateway_nrho"@[0] == 'l');
    assert("lunar_gateway_nrho"@[12] == 'y');
    assert("earth_moon_l2_halo"@[0] == 'e');
    assert("earth_moon_l2_halo"@[12] == '2');
    assert("earth_moon_l2_lyapunov"@[0] == 'e');
    assert("earth_moon_l2_lyapunov"@[12] == '2');
    assert("earth_moon_l4"@[0] == 'e');
    assert("earth_moon_l4"@[12] == '4');
    assert("earth_moon_l5"@[0] == 'e');
    assert("earth_moon_l5"@[12] == '5');
    assert("sun_earth_l2_halo"@[0] == 's');
    assert("sun_earth_l2_halo"@[12] == '_');
    match p {
        OrbitPreset::EarthGeostationary => {
            assert(preset_names(p)[0] == "earth_geo"@);
            assert(preset_names(p)[1] == "geostationary_orbit"@);
        },
        OrbitPreset::EarthGtoApogee => {
            assert(preset_names(p)[0] == "earth_gto_apogee"@);
        },
        OrbitPreset::TransLunarInjection => {
            assert(preset_names(p)[0] == "trans_lunar_injection"@);
            assert(preset_names(p)[1] == "tli_staging"@);
        },
        OrbitPreset::EarthMoonL1Halo => {
            assert(preset_names(p)[0] == "earth_moon_l1_halo"@);
        },
        OrbitPreset::EarthMoonL1Lyapunov => {
            assert(preset_names(p)[0] == "earth_moon_l1_lyapunov"@);
        },
        OrbitPreset::LowLunarOrbit => {
            assert(preset_names(p)[0] == "low_lunar_orbit"@);
        },
        OrbitPreset::LunarGatewayNrho => {
            assert(preset_names(p)[0] == "lunar_gateway_nrho"@);
        },
        OrbitPreset::EarthMoonL2Halo => {
            assert(preset_names(p)[0] == "earth_moon_l2_halo"@);
        },
        OrbitPreset::EarthMoonL2Lyapunov => {
            assert(preset_names(p)[0] == "earth_moon_l2_lyapunov"@);
        },
        OrbitPreset::EarthMoonL4 => {
            assert(preset_names(p)[0] == "earth_moon_l4"@);
        },
        OrbitPreset::EarthMoonL5 => {
            assert(preset_names(p)[0] == "earth_moon_l5"@);
        },
        OrbitPreset::SunEarthL2Halo => {
            assert(preset_names(p)[0] == "sun_earth_l2_halo"@);
        },
    }
}

/// A name that is none of the documented preset names selects the Earth-Moon L1 Lyapunov
/// state.
pub proof fn lemma_unknown_preset_is_l1_lyapunov(n: Seq<char>)
    requires
        forall|p: OrbitPreset, k: int|
            0 <= k < preset_names(p).len() ==> n != #[trigger] preset_names(p)[k],
    ensures
        preset_named(n) == OrbitPreset::EarthMoonL1Lyapunov,
{
    assert(n != preset_names(OrbitPreset::EarthGeostationary)[0]);
    assert(n != preset_names(OrbitPreset::EarthGeostationary)[1]);
    assert(n != preset_names(OrbitPreset::EarthGtoApogee)[0]);
    assert(n != preset_names(OrbitPreset::TransLunarInjection)[0]);
    assert(n != preset_names(OrbitPreset::TransLunarInjection)[1]);
    assert(n != preset_names(OrbitPreset::EarthMoonL1Halo)[0]);
    assert(n != preset_names(OrbitPreset::EarthMoonL1Lyapunov)[0]);
    assert(n != preset_names(OrbitPreset::LowLunarOrbit)[0]);
    assert(n != preset_names(OrbitPreset::LunarGatewayNrho)[0]);
    assert(n != preset_names(OrbitPreset::EarthMoonL2Halo)[0]);
    assert(n != preset_names(OrbitPreset::EarthMoonL2Lyapunov)[0]);
    assert(n != preset_names(OrbitPreset::EarthMoonL4)[0]);
    assert(n != preset_names(OrbitPreset::EarthMoonL5)[0]);
    assert(n != preset_names(OrbitPreset::SunEarthL2Halo)[0]);
}

/// The default parking-orbit injection is staged exactly for the origin names that select
/// the trans-lunar injection preset.
pub proof fn lemma_tli_staging_follows_preset(n: Seq<char>)
    ensures
        is_tli_preset(n) <==> preset_named(n) == OrbitPreset::TransLunarInjection,
{
    reveal_strlit("earth_geo");
    reveal_strlit("geostationary_orbit");
    reveal_strlit("earth_gto_apogee");
    reveal_strlit("trans_lunar_injection");
    reveal_strlit("tli_staging");
    reveal_strlit("earth_moon_l1_halo");
    reveal_strlit("earth_moon_l1_lyapunov");
    reveal_strlit("low_lunar_orbit");
    reveal_strlit("lunar_gateway_nrho");
    reveal_strlit("earth_moon_l2_halo");
    reveal_strlit("earth_moon_l2_lyapunov");
    reveal_strlit("earth_moon_l4");
    reveal_strlit("earth_moon_l5");
    reveal_strlit("sun_earth_l2_halo");
    assert("earth_geo"@[0] == 'e');
    assert("geostationary_orbit"@[0] == 'g');
    assert("geostationary_orbit"@[12] == 'y');
    assert("earth_gto_apogee"@[0] == 'e');
    assert("earth_gto_apogee"@[12] == 'o');
    assert("trans_lunar_injection"@[0] == 't');
    assert("trans_lunar_injection"@[12] == 'i');
    assert("tli_staging"@[0] == 't');
    assert("earth_moon_l1_halo"@[0] == 'e');
    assert("earth_moon_l1_halo"@[12] == '1');
    assert("earth_moon_l1_lyapunov"@[0] == 'e');
    assert("earth_moon_l1_lyapunov"@[12] == '1');
    assert("low_lunar_orbit"@[0] == 'l');
    assert("low_lunar_orbit"@[12] == 'b');
    assert("lunar_gateway_nrho"@[0] == 'l');
    assert("lunar_gateway_nrho"@[12] == 'y');
    assert("earth_moon_l2_halo"@[0] == 'e');
    assert("earth_moon_l2_halo"@[12] == '2');
    assert("earth_moon_l2_lyapunov"@[0] == 'e');
    assert("earth_moon_l2_lyapunov"@[12] == '2');
    assert("earth_moon_l4"@[0] == 'e');
    assert("earth_moon_l4"@[12] == '4');
    assert("earth_moon_l5"@[0] == 'e');
    assert("earth_moon_l5"@[12] == '5');
    assert("sun_earth_l2_halo"@[0] == 's');
    assert("sun_earth_l2_halo"@[12] == '_');
}

/// `t` stands in `h` starting at position `i`.
pub open spec fn text_at(h: Seq<char>, i: int, t: Seq<char>) -> bool {
    0 <= i && i + t.len() <= h.len() && h.subrange(i, i + t.len()) == t
}

/// The header opens with the format version line and the metadata block, writes each
/// metadata field verbatim on its own labelled line, in the order object name, object id,
/// center, reference frame, time system, start time, relative stop time, and closes the
/// metadata block; the returned positions are where those lines start.
#[verifier::rlimit(40)]
pub proof fn lemma_oem_header_lines(m: OemMetadata, stop_days: Seq<char>) -> (pos: Seq<int>)
    ensures
        text_at(oem_header_spec(m, stop_days), 0, "CCSDS_OEM_VERS = 2.0\n"@),
        pos.len() == 7,
        forall|a: int, b: int| 0 <= a < b < 7 ==> pos[a] < pos[b],
        text_at(oem_header_spec(m, stop_days), pos[0], "OBJECT_NAME          = "@ + m.object_name@ + "\n"@),
        text_at(oem_header_spec(m, stop_days), pos[1], "OBJECT_ID            = "@ + m.object_id@ + "\n"@),
        text_at(oem_header_spec(m, stop_days), pos[2], "CENTER_NAME          = "@ + m.center_name@ + "\n"@),
        text_at(oem_header_spec(m, stop_days), pos[3], "REF_FRAME            = "@ + m.ref_frame@ + "\n"@),
        text_at(oem_header_spec(m, stop_days), pos[4], "TIME_SYSTEM          = "@ + m.time_system@ + "\n"@),
        text_at(oem_header_spec(m, stop_days), pos[5], "START_TIME           = "@ + m.start_date@ + "\n"@),
        text_at(oem_header_spec(m, stop_days), pos[6], "STOP_TIME_REL_DAYS   = "@ + stop_days + "\n"@),
        text_at(
            oem_header_spec(m, stop_days),
            oem_header_spec(m, stop_days).len() - 11,
            "META_STOP\n\n"@,
        ),
{
    let h = oem_header_spec(m, stop_days);
    reveal_strlit("CCSDS_OEM_VERS = 2.0\n");
    reveal_strlit("CREATION_DATE  = 2026-09-22T12:00:00.000\n");
    reveal_strlit("ORIGINATOR     = SBM_ASTRODYNAMICS_FLIGHT_PLANNER\n\n");
    reveal_strlit("META_START\n");
    reveal_strlit("META_STOP\n\n");
    reveal_strlit("\n");
    reveal_strlit("OBJECT_NAME          = ");
    reveal_strlit("OBJECT_ID            = ");
    reveal_strlit("CENTER_NAME          = ");
    reveal_strlit("REF_FRAME            = ");
    reveal_strlit("TIME_SYSTEM          = ");
    reveal_strlit("START_TIME           = ");
    reveal_strlit("STOP_TIME_REL_DAYS   = ");
    let p0: int = 124;
    let p1: int = p0 + 23 + m.object_name@.len() + 1;
    let p2: int = p1 + 23 + m.object_id@.len() + 1;
    let p3: int = p2 + 23 + m.center_name@.len() + 1;
    let p4: int = p3 + 23 + m.ref_frame@.len() + 1;
    let p5: int = p4 + 23 + m.time_system@.len() + 1;
    let p6: int = p5 + 23 + m.start_date@.len() + 1;
    let p7: int = p6 + 23 + stop_days.len() + 1;
    assert(h.subrange(0, 21) =~= "CCSDS_OEM_VERS = 2.0\n"@);
    assert(h.subrange(p0, p1) =~= "OBJECT_NAME          = "@ + m.object_name@ + "\n"@);
    assert(h.subrange(p1, p2) =~= "OBJECT_ID            = "@ + m.object_id@ + "\n"@);
    assert(h.subrange(p2, p3) =~= "CENTER_NAME          = "@ + m.center_name@ + "\n"@);
    assert(h.subrange(p3, p4) =~= "REF_FRAME            = "@ + m.ref_frame@ + "\n"@);
    assert(h.subrange(p4, p5) =~= "TIME_SYSTEM          = "@ + m.time_system@ + "\n"@);
    assert(h.subrange(p5, p6) =~= "START_TIME           = "@ + m.start_date@ + "\n"@);
    assert(h.subrange(p6, p7) =~= "STOP_TIME_REL_DAYS   = "@ + stop_days + "\n"@);
    assert(h.len() == p7 + 11);
    assert(h.subrange(p7, p7 + 11) =~= "META_STOP\n\n"@);
    seq![p0, p1, p2, p3, p4, p5, p6]
}

} // verus!
