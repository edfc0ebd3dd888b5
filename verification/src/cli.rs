//! Command-line front end: subcommand selection and option scanning.

use vstd::prelude::*;
use crate::text::text_eq;

verus! {

/// The subcommands of the command-line planner.
#[derive(Debug, Clone, Copy, PartialEq, Eq, Structural)]
pub enum CliCommand {
    /// Debris breakup simulation (also chosen for unknown or missing subcommands).
    Breakup,
    /// Clohessy-Wiltshire rendezvous maneuver planning.
    Rpo,
    /// Three-body low-energy transfer.
    Transfer,
    /// Usage guide.
    Help,
}

/// The subcommand a first argument selects.
pub open spec fn command_named(a: Seq<char>) -> CliCommand {
    if a == "rpo"@ {
        CliCommand::Rpo
    } else if a == "transfer"@ {
        CliCommand::Transfer
    } else if a == "help"@ || a == "--help"@ || a == "-h"@ {
        CliCommand::Help
    } else {
        CliCommand::Breakup
    }
}

/// The subcommand of a full argument list (program name first): the second argument,
/// or `breakup` when there is none.
pub open spec fn command_of(args: Seq<String>) -> CliCommand {
    if args.len() > 1 {
        command_named(args[1]@)
    } else {
        command_named("breakup"@)
    }
}

/// Selects the subcommand from the full argument list (program name first).
pub fn select_command(args: &Vec<String>) -> (r: CliCommand)
    ensures
        r == command_of(args@),
{
    let sub: &str = if args.len() > 1 {
        args[1].as_str()
    } else {
        "breakup"
    };
    if text_eq(sub, "rpo") {
        CliCommand::Rpo
    } else if text_eq(sub, "transfer") {
        CliCommand::Transfer
    } else if text_eq(sub, "help") || text_eq(sub, "--help") || text_eq(sub, "-h") {
        CliCommand::Help
    } else {
        CliCommand::Breakup
    }
}

/// The lines of the usage guide, in order.
pub open spec fn usage_text() -> Seq<Seq<char>> {
    seq![
        "============================================================"@,
        " SBM Astrodynamics & Mission Planning CLI"@,
        "============================================================"@,
        "Usage: sbm_simple_engine <COMMAND> [OPTIONS]"@,
        ""@,
        "COMMANDS:"@,
        "  breakup   Execute NASA EVOLVE 4.0 debris collision simulation (default)"@,
        "  rpo       Plan Clohessy-Wiltshire RPO target maneuvers"@,
        "  transfer  Compute CR3BP invariant manifold low-energy transfer"@,
        "  help      Show this usage guide"@,
        ""@,
        "RPO OPTIONS:"@,
        "  --mode <nmc|two-impulse|vbar|rbar>  RPO maneuver profile (default: two-impulse)"@,
        "  --target <iss|sso|geo>             Reference target orbit (default: iss)"@,
        "  --x <meters>                       Initial radial offset (default: -100.0)"@,
        "  --y <meters>                       Initial in-track offset (default: -500.0)"@,
        "  --z <meters>                       Initial cross-track offset (default: 0.0)"@,
        "  --duration <seconds>               Transfer duration (default: 1800.0)"@,
        "  --radial <meters>                  NMC radial semi-axis (default: 100.0)"@,
        "============================================================"@,
    ]
}

/// The lines of the usage guide, in the order they are shown.
pub fn usage_lines() -> (v: Vec<&'static str>)
    ensures
        v@.len() == usage_text().len(),
        forall|k: int| 0 <= k < v@.len() ==> #[trigger] v@[k]@ == usage_text()[k],
{
    vec![
        "============================================================",
        " SBM Astrodynamics & Mission Planning CLI",
        "============================================================",
        "Usage: sbm_simple_engine <COMMAND> [OPTIONS]",
        "",
        "COMMANDS:",
        "  breakup   Execute NASA EVOLVE 4.0 debris collision simulation (default)",
        "  rpo       Plan Clohessy-Wiltshire RPO target maneuvers",
        "  transfer  Compute CR3BP invariant manifold low-energy transfer",
        "  help      Show this usage guide",
        "",
        "RPO OPTIONS:",
        "  --mode <nmc|two-impulse|vbar|rbar>  RPO maneuver profile (default: two-impulse)",
        "  --target <iss|sso|geo>             Reference target orbit (default: iss)",
        "  --x <meters>                       Initial radial offset (default: -100.0)",
        "  --y <meters>                       Initial in-track offset (default: -500.0)",
        "  --z <meters>                       Initial cross-track offset (default: 0.0)",
        "  --duration <seconds>               Transfer duration (default: 1800.0)",
        "  --radial <meters>                  NMC radial semi-axis (default: 100.0)",
        "============================================================",
    ]
}

/// Options of the rendezvous subcommand, as written on the command line.
/// Numeric options keep their text: the last occurrence wins, and text that is not a
/// number stands for the option's default.
pub struct RpoCliArgs {
    /// Maneuver profile name (default `two-impulse`).
    pub mode: String,
    /// Reference target name (default `iss`).
    pub target: String,
    /// Initial radial offset in meters.
    pub x: Option<String>,
    /// Initial in-track offset in meters.
    pub y: Option<String>,
    /// Initial cross-track offset in meters.
    pub z: Option<String>,
    /// Transfer duration in seconds.
    pub duration: Option<String>,
    /// Natural-motion radial semi-axis in meters.
    pub radial: Option<String>,
}

/// The options as character sequences.
pub struct RpoArgsModel {
    pub mode: Seq<char>,
    pub target: Seq<char>,
    pub x: Option<Seq<char>>,
    pub y: Option<Seq<char>>,
    pub z: Option<Seq<char>>,
    pub duration: Option<Seq<char>>,
    pub radial: Option<Seq<char>>,
}

/// The text of an optional string.
pub open spec fn opt_text(o: Option<String>) -> Option<Seq<char>> {
    match o {
        Some(s) => Some(s@),
        None => None,
    }
}

impl RpoCliArgs {
    /// The options as character sequences.
    pub open spec fn model(&self) -> RpoArgsModel {
        RpoArgsModel {
            mode: self.mode@,
            target: self.target@,
            x: opt_text(self.x),
            y: opt_text(self.y),
            z: opt_text(self.z),
            duration: opt_text(self.duration),
            radial: opt_text(self.radial),
        }
    }
}

/// Options before any argument is read.
pub open spec fn default_rpo_args() -> RpoArgsModel {
    RpoArgsModel {
        mode: "two-impulse"@,
        target: "iss"@,
        x: None,
        y: None,
        z: None,
        duration: None,
        radial: None,
    }
}

/// Number of the option a flag names: 0 `--mode`, 1 `--target`, 2 `--x`, 3 `--y`,
/// 4 `--z`, 5 `--duration`, 6 `--radial`; -1 for any other argument.
pub open spec fn flag_number(a: Seq<char>) -> int {
    if a == "--mode"@ {
        0
    } else if a == "--target"@ {
        1
    } else if a == "--x"@ {
        2
    } else if a == "--y"@ {
        3
    } else if a == "--z"@ {
        4
    } else if a == "--duration"@ {
        5
    } else if a == "--radial"@ {
        6
    } else {
        -1
    }
}

/// Options after setting option `k` to `v`.
pub open spec fn set_option(m: RpoArgsModel, k: int, v: Seq<char>) -> RpoArgsModel {
    if k == 0 {
        RpoArgsModel { mode: v, ..m }
    } else if k == 1 {
        RpoArgsModel { target: v, ..m }
    } else if k == 2 {
        RpoArgsModel { x: Some(v), ..m }
    } else if k == 3 {
        RpoArgsModel { y: Some(v), ..m }
    } else if k == 4 {
        RpoArgsModel { z: Some(v), ..m }
    } else if k == 5 {
        RpoArgsModel { duration: Some(v), ..m }
    } else {
        RpoArgsModel { radial: Some(v), ..m }
    }
}

/// Reads the arguments from position `i` on: a flag followed by another argument takes
/// that argument as its value (even if it looks like a flag) and both are consumed;
/// anything else, including a flag in last position, is skipped.
pub open spec fn scan_rpo_args(args: Seq<String>, i: int, m: RpoArgsModel) -> RpoArgsModel
    decreases args.len() - i,
{
    if i < 0 || i >= args.len() {
        m
    } else if flag_number(args[i]@) >= 0 && i + 1 < args.len() {
        scan_rpo_args(args, i + 2, set_option(m, flag_number(args[i]@), args[i + 1]@))
    } else {
        scan_rpo_args(args, i + 1, m)
    }
}

fn flag_number_of(a: &str) -> (k: i8)
    ensures
        k as int == flag_number(a@),
{
    if text_eq(a, "--mode") {
        0
    } else if text_eq(a, "--target") {
        1
    } else if text_eq(a, "--x") {
        2
    } else if text_eq(a, "--y") {
        3
    } else if text_eq(a, "--z") {
        4
    } else if text_eq(a, "--duration") {
        5
    } else if text_eq(a, "--radial") {
        6
    } else {
        -1
    }
}

/// Scans the options of the rendezvous subcommand (the arguments after `rpo`).
pub fn parse_rpo_args(args: &[String]) -> (r: RpoCliArgs)
    ensures
        r.model() == scan_rpo_args(args@, 0, default_rpo_args()),
{
    let mut out = RpoCliArgs {
        mode: String::from_str("two-impulse"),
        target: String::from_str("iss"),
        x: None,
        y: None,
        z: None,
        duration: None,
        radial: None,
    };
    let mut i: usize = 0;
    while i < args.len()
        invariant
            i <= args@.len(),
            scan_rpo_args(args@, 0, default_rpo_args()) == scan_rpo_args(args@, i as int, out.model()),
        decreases args.len() - i,
    {
        let k = flag_number_of(args[i].as_str());
        if k >= 0 && i + 1 < args.len() {
            let v = args[i + 1].clone();
            if k == 0 {
                out.mode = v;
            } else if k == 1 {
                out.target = v;
            } else if k == 2 {
                out.x = Some(v);
            } else if k == 3 {
                out.y = Some(v);
            } else if k == 4 {
                out.z = Some(v);
            } else if k == 5 {
                out.duration = Some(v);
            } else {
                out.radial = Some(v);
            }
            i = i + 2;
        } else {
            i = i + 1;
        }
    }
    out
}

/// The names documented for each subcommand.
pub open spec fn command_names(c: CliCommand) -> Seq<Seq<char>> {
    match c {
        CliCommand::Breakup => seq!["breakup"@],
        CliCommand::Rpo => seq!["rpo"@],
        CliCommand::Transfer => seq!["transfer"@],
        CliCommand::Help => seq!["help"@, "--help"@, "-h"@],
    }
}

/// Every documented subcommand name selects that subcommand; any other first argument, or
/// none, runs the breakup simulation.
pub proof fn lemma_command_names_select(c: CliCommand, k: int, a: Seq<char>)
    ensures
        0 <= k < command_names(c).len() ==> command_named(command_names(c)[k]) == c,
        (a != "rpo"@ && a != "transfer"@ && a != "help"@ && a != "--help"@ && a != "-h"@)
            ==> command_named(a) == CliCommand::Breakup,
        command_of(seq![]) == CliCommand::Breakup,
{
    reveal_strlit("breakup");
    reveal_strlit("rpo");
    reveal_strlit("transfer");
    reveal_strlit("help");
    reveal_strlit("--help");
    reveal_strlit("-h");
    assert("breakup"@[0] == 'b' && "rpo"@[0] == 'r' && "transfer"@[0] == 't');
    assert("help"@[0] == 'h' && "--help"@[0] == '-' && "-h"@[0] == '-');
    if 0 <= k < command_names(c).len() {
        if k == 0 {
            assert(command_names(c)[0] == match c {
                CliCommand::Breakup => "breakup"@,
                CliCommand::Rpo => "rpo"@,
                CliCommand::Transfer => "transfer"@,
                CliCommand::Help => "help"@,
            });
        } else if k == 1 {
            assert(command_names(c)[1] == "--help"@);
        } else {
            assert(command_names(c)[2] == "-h"@);
        }
    }
}

/// A flag followed by a value sets exactly the option the flag names to that value; every
/// other option keeps its default.
pub proof fn lemma_single_option(args: Seq<String>)
    requires
        args.len() == 2,
    ensures
        args[0]@ == "--mode"@ ==> scan_rpo_args(args, 0, default_rpo_args()) == (RpoArgsModel {
            mode: args[1]@,
            ..default_rpo_args()
        }),
        args[0]@ == "--target"@ ==> scan_rpo_args(args, 0, default_rpo_args()) == (RpoArgsModel {
            target: args[1]@,
            ..default_rpo_args()
        }),
        args[0]@ == "--x"@ ==> scan_rpo_args(args, 0, default_rpo_args()) == (RpoArgsModel {
            x: Some(args[1]@),
            ..default_rpo_args()
        }),
        args[0]@ == "--y"@ ==> scan_rpo_args(args, 0, default_rpo_args()) == (RpoArgsModel {
            y: Some(args[1]@),
            ..default_rpo_args()
        }),
        args[0]@ == "--z"@ ==> scan_rpo_args(args, 0, default_rpo_args()) == (RpoArgsModel {
            z: Some(args[1]@),
            ..default_rpo_args()
        }),
        args[0]@ == "--duration"@ ==> scan_rpo_args(args, 0, default_rpo_args()) == (RpoArgsModel {
            duration: Some(args[1]@),
            ..default_rpo_args()
        }),
        args[0]@ == "--radial"@ ==> scan_rpo_args(args, 0, default_rpo_args()) == (RpoArgsModel {
            radial: Some(args[1]@),
            ..default_rpo_args()
        }),
{
    reveal_with_fuel(scan_rpo_args, 3);
    reveal_strlit("--mode");
    reveal_strlit("--target");
    reveal_strlit("--x");
    reveal_strlit("--y");
    reveal_strlit("--z");
    reveal_strlit("--duration");
    reveal_strlit("--radial");
    assert("--mode"@[2] == 'm');
    assert("--target"@[2] == 't');
    assert("--x"@[2] == 'x');
    assert("--y"@[2] == 'y');
    assert("--z"@[2] == 'z');
    assert("--duration"@[2] == 'd');
    assert("--radial"@[2] == 'r');
}

/// When an option is given twice, the later value wins.
pub proof fn lemma_last_option_wins(args: Seq<String>)
    requires
        args.len() == 4,
        args[0]@ == "--target"@,
        args[2]@ == "--target"@,
    ensures
        scan_rpo_args(args, 0, default_rpo_args()).target == args[3]@,
{
    reveal_with_fuel(scan_rpo_args, 4);
    reveal_strlit("--mode");
    reveal_strlit("--target");
    reveal_strlit("--x");
    reveal_strlit("--y");
    reveal_strlit("--z");
    reveal_strlit("--duration");
    reveal_strlit("--radial");
    assert("--mode"@[2] == 'm');
    assert("--target"@[2] == 't');
    assert("--x"@[2] == 'x');
    assert("--y"@[2] == 'y');
    assert("--z"@[2] == 'z');
    assert("--duration"@[2] == 'd');
    assert("--radial"@[2] == 'r');
}

/// With no arguments the profile is `two-impulse`, the target `iss`, and no numeric
/// option is given (each takes its documented default).
pub proof fn lemma_no_arguments(args: Seq<String>)
    requires
        args.len() == 0,
    ensures
        scan_rpo_args(args, 0, default_rpo_args()).mode == "two-impulse"@,
        scan_rpo_args(args, 0, default_rpo_args()).target == "iss"@,
        scan_rpo_args(args, 0, default_rpo_args()).x is None,
        scan_rpo_args(args, 0, default_rpo_args()).y is None,
        scan_rpo_args(args, 0, default_rpo_args()).z is None,
        scan_rpo_args(args, 0, default_rpo_args()).duration is None,
        scan_rpo_args(args, 0, default_rpo_args()).radial is None,
{
}

} // verus!
