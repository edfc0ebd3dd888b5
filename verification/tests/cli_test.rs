use sbm_core::cli::{parse_rpo_args, select_command, usage_lines, CliCommand};
use sbm_core::rpo::{cli_mode, cli_target, RpoMode, RpoTarget};

fn args(items: &[&str]) -> Vec<String> {
    items.iter().map(|s| s.to_string()).collect()
}

#[test]
fn subcommand_selection() {
    assert_eq!(select_command(&args(&["sbm"])), CliCommand::Breakup);
    assert_eq!(select_command(&args(&["sbm", "breakup"])), CliCommand::Breakup);
    assert_eq!(select_command(&args(&["sbm", "rpo", "--mode", "nmc"])), CliCommand::Rpo);
    assert_eq!(select_command(&args(&["sbm", "transfer"])), CliCommand::Transfer);
    assert_eq!(select_command(&args(&["sbm", "help"])), CliCommand::Help);
    assert_eq!(select_command(&args(&["sbm", "--help"])), CliCommand::Help);
    assert_eq!(select_command(&args(&["sbm", "-h"])), CliCommand::Help);
    assert_eq!(select_command(&args(&["sbm", "RPO"])), CliCommand::Breakup);
    assert_eq!(select_command(&args(&["sbm", "whatever"])), CliCommand::Breakup);
}

#[test]
fn rpo_defaults() {
    let a = parse_rpo_args(&args(&[]));
    assert_eq!(a.mode, "two-impulse");
    assert_eq!(a.target, "iss");
    assert_eq!(a.x, None);
    assert_eq!(a.y, None);
    assert_eq!(a.z, None);
    assert_eq!(a.duration, None);
    assert_eq!(a.radial, None);
}

#[test]
fn rpo_options_are_read() {
    let a = parse_rpo_args(&args(&[
        "--mode", "vbar", "--target", "geo", "--x", "-5", "--y", "20", "--z", "3", "--duration",
        "600", "--radial", "75",
    ]));
    assert_eq!(a.mode, "vbar");
    assert_eq!(a.target, "geo");
    assert_eq!(a.x.as_deref(), Some("-5"));
    assert_eq!(a.y.as_deref(), Some("20"));
    assert_eq!(a.z.as_deref(), Some("3"));
    assert_eq!(a.duration.as_deref(), Some("600"));
    assert_eq!(a.radial.as_deref(), Some("75"));
}

#[test]
fn rpo_last_occurrence_wins_and_flags_take_any_next_argument() {
    let a = parse_rpo_args(&args(&["--x", "1", "--x", "abc", "--mode", "--y", "7"]));
    assert_eq!(a.x.as_deref(), Some("abc"));
    assert_eq!(a.mode, "--y");
    assert_eq!(a.y, None);
}

#[test]
fn rpo_trailing_flag_and_stray_arguments_are_skipped() {
    let a = parse_rpo_args(&args(&["stray", "--z", "4", "--target"]));
    assert_eq!(a.z.as_deref(), Some("4"));
    assert_eq!(a.target, "iss");
}

#[test]
fn rpo_mode_and_target_names() {
    assert_eq!(cli_mode("NMC"), RpoMode::NaturalMotionCircumnavigation);
    assert_eq!(cli_mode("inspection"), RpoMode::NaturalMotionCircumnavigation);
    assert_eq!(cli_mode("VBar"), RpoMode::VBarGlideslope);
    assert_eq!(cli_mode("rbar"), RpoMode::RBarGlideslope);
    assert_eq!(cli_mode("v_bar"), RpoMode::TwoImpulse);
    assert_eq!(cli_mode("two-impulse"), RpoMode::TwoImpulse);
    assert_eq!(cli_target("SSO"), RpoTarget::Sso);
    assert_eq!(cli_target("geo"), RpoTarget::Geo);
    assert_eq!(cli_target("iss"), RpoTarget::Iss);
    assert_eq!(cli_target("mars"), RpoTarget::Iss);
}

#[test]
fn usage_guide_lines() {
    let lines = usage_lines();
    assert_eq!(lines.len(), 20);
    assert_eq!(lines[1], " SBM Astrodynamics & Mission Planning CLI");
    assert_eq!(lines[3], "Usage: sbm_simple_engine <COMMAND> [OPTIONS]");
    assert_eq!(lines[4], "");
    assert_eq!(lines[12], "  --mode <nmc|two-impulse|vbar|rbar>  RPO maneuver profile (default: two-impulse)");
    assert_eq!(lines[19], lines[0]);
}
