use sbm_core::cr3bp::{EventDirection, Sign};
use sbm_core::service::{
    csv_header, health_report, is_tli_preset_name, oem_header, resolve_html_path, resolve_orbit_state, tli_staging,
    ExportOemResponse, HtmlLocation, OemMetadata, OrbitPreset, OrbitSource, TliStaging,
};

#[test]
fn health_report_contents() {
    let h = health_report();
    assert_eq!(h.status, "ok");
    assert_eq!(h.version, "0.2.0");
    assert_eq!(h.engine, "CR3BP High-Precision Astrodynamics Engine (AAS 20-459)");
    assert_eq!(h.capabilities.len(), 7);
    assert_eq!(h.capabilities[0], "Euler Quintic Lagrange Root Solving (L1-L5)");
    assert_eq!(h.capabilities[6], "AAS 20-459 Low-Energy Multi-Body Transfer Engine");
}

#[test]
fn test_health_endpoint() {
    let h = health_report();
    assert_eq!(h.status, "ok");
    assert_eq!(h.version, "0.2.0");
    assert!(h.capabilities.len() >= 5);
}

#[test]
fn html_lookup_order() {
    assert_eq!(resolve_html_path(true, true, true), HtmlLocation::Direct);
    assert_eq!(resolve_html_path(false, true, true), HtmlLocation::TwoLevelsUp);
    assert_eq!(resolve_html_path(false, false, true), HtmlLocation::OneLevelUp);
    assert_eq!(resolve_html_path(false, false, false), HtmlLocation::Direct);
}

#[test]
fn orbit_sources() {
    assert_eq!(resolve_orbit_state(true, Some("earth_geo"), "earth_moon_l2_halo"), OrbitSource::Custom);
    assert_eq!(
        resolve_orbit_state(false, None, "earth_moon_l2_halo"),
        OrbitSource::Preset(OrbitPreset::EarthMoonL2Halo)
    );
    assert_eq!(
        resolve_orbit_state(false, Some("Geostationary_Orbit"), "earth_moon_l1_lyapunov"),
        OrbitSource::Preset(OrbitPreset::EarthGeostationary)
    );
    assert_eq!(
        resolve_orbit_state(false, Some("tli_staging"), "x"),
        OrbitSource::Preset(OrbitPreset::TransLunarInjection)
    );
    assert_eq!(
        resolve_orbit_state(false, Some("lunar_gateway_nrho"), "x"),
        OrbitSource::Preset(OrbitPreset::LunarGatewayNrho)
    );
    assert_eq!(
        resolve_orbit_state(false, Some("somewhere"), "earth_moon_l2_halo"),
        OrbitSource::Preset(OrbitPreset::EarthMoonL1Lyapunov)
    );
}

#[test]
fn tli_staging_choices() {
    assert_eq!(tli_staging(true, Some("earth_geo")), TliStaging::RequestedAltitude);
    assert_eq!(tli_staging(false, Some("tli_staging")), TliStaging::DefaultParkingOrbit);
    assert_eq!(tli_staging(false, Some("Trans_Lunar_Injection")), TliStaging::DefaultParkingOrbit);
    assert_eq!(tli_staging(false, Some("earth_geo")), TliStaging::NoInjection);
    assert_eq!(tli_staging(false, None), TliStaging::NoInjection);
}

#[test]
fn oem_header_with_defaults_and_names() {
    let meta = OemMetadata::resolve(Some("TEST_SCVX_ORBITER"), Some("2026-042A"), None, None, None, None);
    let header = oem_header(&meta, "14.0000");
    let expected = "CCSDS_OEM_VERS = 2.0\n\
CREATION_DATE  = 2026-09-22T12:00:00.000\n\
ORIGINATOR     = SBM_ASTRODYNAMICS_FLIGHT_PLANNER\n\n\
META_START\n\
OBJECT_NAME          = TEST_SCVX_ORBITER\n\
OBJECT_ID            = 2026-042A\n\
CENTER_NAME          = EARTH-MOON BARYCENTER\n\
REF_FRAME            = EME2000\n\
TIME_SYSTEM          = UTC\n\
START_TIME           = 2026-09-22T00:00:00.000\n\
STOP_TIME_REL_DAYS   = 14.0000\n\
META_STOP\n\n";
    assert_eq!(header, expected);
    assert!(header.contains("OBJECT_NAME          = TEST_SCVX_ORBITER"));
}

#[test]
fn oem_defaults() {
    let meta = OemMetadata::resolve(None, None, None, None, None, None);
    assert_eq!(meta.object_name, "DEEP_SPACE_TRANSFER_VEHICLE");
    assert_eq!(meta.object_id, "2026-999A");
    assert_eq!(meta.center_name, "EARTH-MOON BARYCENTER");
    assert_eq!(meta.ref_frame, "EME2000");
    assert_eq!(meta.time_system, "UTC");
    assert_eq!(meta.start_date, "2026-09-22T00:00:00.000");
}

#[test]
fn export_response() {
    assert_eq!(
        csv_header(),
        "time_days,x_km,y_km,z_km,vx_km_s,vy_km_s,vz_km_s,thrust_mn,cumulative_dv_m_s\n"
    );
    let r = ExportOemResponse::new("a".to_string(), "b".to_string());
    assert!(r.success);
    assert_eq!(r.format, "CCSDS OEM v2.0 & RFC 4180 CSV");
    assert_eq!(r.oem_content, "a");
    assert_eq!(r.csv_content, "b");
}

#[test]
fn event_crossings() {
    let all = [Sign::Negative, Sign::Zero, Sign::Positive, Sign::Unordered];
    for p in all {
        for c in all {
            let up = EventDirection::Positive.is_triggered(p, c);
            let down = EventDirection::Negative.is_triggered(p, c);
            assert_eq!(EventDirection::Either.is_triggered(p, c), up || down);
            assert!(!(up && down));
        }
    }
    assert!(EventDirection::Positive.is_triggered(Sign::Negative, Sign::Zero));
    assert!(EventDirection::Positive.is_triggered(Sign::Negative, Sign::Positive));
    assert!(!EventDirection::Positive.is_triggered(Sign::Negative, Sign::Unordered));
    assert!(!EventDirection::Positive.is_triggered(Sign::Zero, Sign::Positive));
    assert!(EventDirection::Negative.is_triggered(Sign::Positive, Sign::Zero));
    assert!(EventDirection::Negative.is_triggered(Sign::Positive, Sign::Negative));
    assert!(!EventDirection::Negative.is_triggered(Sign::Unordered, Sign::Negative));
    assert!(EventDirection::Either.is_triggered(Sign::Positive, Sign::Negative));
}

#[test]
fn tli_preset_names() {
    assert!(is_tli_preset_name("trans_lunar_injection"));
    assert!(is_tli_preset_name("tli_staging"));
    assert!(!is_tli_preset_name("TLI_STAGING"));
    assert!(!is_tli_preset_name("earth_geo"));
}
