use sbm_core::autoorbit::{Activation, PredictionHorizon};
use sbm_core::cr3bp::{resolve_system, CelestialSystem, LagrangePoint, ManifoldBranch, ManifoldType};
use sbm_core::json::SimpleJson;
use sbm_core::rpo::{service_mode, service_target, RpoError, RpoMode, RpoTarget};
use sbm_core::types::{BreakupType, ObjectType};

#[test]
fn system_names() {
    assert_eq!(resolve_system("earth_moon"), CelestialSystem::EarthMoon);
    assert_eq!(resolve_system("Sun_Earth"), CelestialSystem::SunEarth);
    assert_eq!(resolve_system("SUN_JUPITER"), CelestialSystem::SunJupiter);
    assert_eq!(resolve_system("Earth-Moon"), CelestialSystem::EarthMoon);
    assert_eq!(resolve_system(""), CelestialSystem::EarthMoon);
}

#[test]
fn lagrange_point_labels() {
    assert_eq!(LagrangePoint::L1.label(), "L1");
    assert_eq!(LagrangePoint::L2.label(), "L2");
    assert_eq!(LagrangePoint::L3.label(), "L3");
    assert_eq!(LagrangePoint::L4.label(), "L4");
    assert_eq!(LagrangePoint::L5.label(), "L5");
}

#[test]
fn manifold_selectors() {
    assert_eq!(ManifoldType::from_name("stable"), ManifoldType::Stable);
    assert_eq!(ManifoldType::from_name("STABLE"), ManifoldType::Stable);
    assert_eq!(ManifoldType::from_name("unstable"), ManifoldType::Unstable);
    assert_eq!(ManifoldType::from_name("anything"), ManifoldType::Unstable);
    assert_eq!(ManifoldBranch::from_name("Negative"), ManifoldBranch::Negative);
    assert_eq!(ManifoldBranch::from_name("positive"), ManifoldBranch::Positive);
    assert_eq!(ManifoldBranch::from_name(""), ManifoldBranch::Positive);
}

#[test]
fn service_rpo_names() {
    assert_eq!(service_mode(None), RpoMode::TwoImpulse);
    assert_eq!(service_mode(Some("two_impulse")), RpoMode::TwoImpulse);
    assert_eq!(service_mode(Some("NMC")), RpoMode::NaturalMotionCircumnavigation);
    assert_eq!(service_mode(Some("v_bar")), RpoMode::VBarGlideslope);
    assert_eq!(service_mode(Some("VBAR")), RpoMode::VBarGlideslope);
    assert_eq!(service_mode(Some("r_bar")), RpoMode::RBarGlideslope);
    assert_eq!(service_target(None), RpoTarget::Iss);
    assert_eq!(service_target(Some("ISS")), RpoTarget::Iss);
    assert_eq!(service_target(Some("sso")), RpoTarget::Sso);
    assert_eq!(service_target(Some("Geo")), RpoTarget::Geo);
    assert_eq!(service_target(Some("leo_550")), RpoTarget::CustomAltitude);
}

#[test]
fn rpo_error_messages() {
    assert_eq!(
        RpoError::SingularTransferTime("Phi_rv block matrix is non-invertible".to_string()).message(),
        "Singular transfer duration: Phi_rv block matrix is non-invertible"
    );
    assert_eq!(RpoError::ZeroTargetMeanMotion.message(), "Target orbital mean motion cannot be zero");
    assert_eq!(
        RpoError::InvalidConfiguration("x".to_string()).message(),
        "Invalid RPO configuration: x"
    );
}

#[test]
fn activation_names() {
    assert_eq!(Activation::from_layer_name(Some("relu")), Activation::ReLU);
    assert_eq!(Activation::from_layer_name(Some("ReLU")), Activation::ReLU);
    assert_eq!(Activation::from_layer_name(Some("GELU")), Activation::GELU);
    assert_eq!(Activation::from_layer_name(Some("identity")), Activation::GELU);
    assert_eq!(Activation::from_layer_name(None), Activation::GELU);
}

#[test]
fn activation_read_from_a_layer_document() {
    let doc = SimpleJson::parse("{\"encoder_layers\": [{\"activation\": \"ReLU\"}, {\"skip\": {}}]}").unwrap();
    let layers = doc.get_obj("encoder_layers").and_then(|v| v.as_vec_json()).unwrap();
    let first = Activation::from_layer_name(layers[0].get_obj("activation").and_then(|v| v.as_str()));
    let second = Activation::from_layer_name(layers[1].get_obj("activation").and_then(|v| v.as_str()));
    assert_eq!(first, Activation::ReLU);
    assert_eq!(second, Activation::GELU);
}

#[test]
fn horizon_seconds() {
    assert_eq!(PredictionHorizon::HalfHour.seconds(), 1800);
    assert_eq!(PredictionHorizon::OneHour.seconds(), 3600);
    assert_eq!(PredictionHorizon::FourHours.seconds(), 14400);
    assert_eq!(PredictionHorizon::EightHours.seconds(), 28800);
    assert_eq!(PredictionHorizon::TwelveHours.seconds(), 43200);
    assert_eq!(PredictionHorizon::TwentyFourHours.seconds(), 86400);
}

#[test]
fn classifications_compare() {
    assert_ne!(ObjectType::Spacecraft, ObjectType::RocketBody);
    assert_ne!(BreakupType::Collision, BreakupType::Explosion);
}
