//! Reading the launcher's command line and menu answers.
use vstd::prelude::*;
use crate::engine::Config;

verus! {

/// What the launcher was asked to do.
#[derive(Clone, Copy, Debug, PartialEq, Eq, Structural)]
pub enum Mode {
    /// Live weight, no controller driver needed.
    Monitor,
    /// Lean-to-controller bridge.
    Gamepad,
    /// Pair a board.
    Pair,
    /// Check the setup.
    Doctor,
}

/// What to do once the command line has been read.
#[derive(Clone, Copy, Debug, PartialEq, Eq, Structural)]
pub enum Invocation {
    /// Print the usage text.
    Help,
    /// Show the interactive menu (the launcher started with no arguments).
    Menu,
    /// Pair a board.
    Pair,
    /// Check the setup.
    Doctor,
    /// Connect with these settings.
    Run(Config),
}

/// Why the command line was refused.
#[derive(Clone, Copy, Debug, PartialEq, Eq, Structural)]
pub enum ArgError {
    /// More than one mode was given.
    MultipleModes,
    /// The argument at this position is not an option.
    UnknownOption(usize),
}

/// Asks for the usage text.
pub open spec fn is_help_arg(a: Seq<char>) -> bool {
    a == "--help"@ || a == "-h"@
}

/// The mode an argument selects, if it is a mode.
pub open spec fn mode_arg(a: Seq<char>) -> Option<Mode> {
    if a == "--monitor"@ {
        Some(Mode::Monitor)
    } else if a == "--gamepad"@ {
        Some(Mode::Gamepad)
    } else if a == "--pair"@ {
        Some(Mode::Pair)
    } else if a == "--doctor"@ {
        Some(Mode::Doctor)
    } else {
        None
    }
}

/// Settings with every option off.
pub open spec fn default_config() -> Config {
    Config { gamepad: false, no_tare: false, no_smooth: false, no_cache: false }
}

/// Reading the arguments in order: the mode so far, whether one was named,
/// and the options; or the first refusal. The launcher starts in monitor
/// mode, the bridge in gamepad mode.
pub open spec fn scan_args(args: Seq<Seq<char>>, launcher: bool) -> Result<(Mode, bool, Config), ArgError>
    decreases args.len(),
{
    if args.len() == 0 {
        Ok((if launcher { Mode::Monitor } else { Mode::Gamepad }, false, default_config()))
    } else {
        let a = args.last();
        let idx = (args.len() - 1) as usize;
        match scan_args(args.drop_last(), launcher) {
            Err(e) => Err(e),
            Ok((mode, chosen, cfg)) => match mode_arg(a) {
                Some(m) => if chosen {
                    Err(ArgError::MultipleModes)
                } else {
                    Ok((m, true, cfg))
                },
                None => if a == "--no-tare"@ {
                    Ok((mode, chosen, Config { no_tare: true, ..cfg }))
                } else if a == "--no-smooth"@ {
                    Ok((mode, chosen, Config { no_smooth: true, ..cfg }))
                } else if a == "--no-cache"@ {
                    Ok((mode, chosen, Config { no_cache: true, ..cfg }))
                } else if a == "--verbose"@ || a == "-v"@ {
                    Ok((mode, chosen, cfg))
                } else {
                    Err(ArgError::UnknownOption(idx))
                },
            },
        }
    }
}

/// The settings a connection runs with: a controller only in gamepad mode,
/// and no stance centering while only monitoring (readings should show at
/// once, even with nobody on the board).
pub open spec fn spec_run_config(gamepad: bool, cfg: Config) -> Config {
    Config { gamepad, no_tare: cfg.no_tare || !gamepad, ..cfg }
}

/// What a command line asks for. A help flag anywhere wins over everything
/// else; the launcher with no arguments shows the menu.
pub open spec fn spec_parse_args(args: Seq<Seq<char>>, launcher: bool) -> Result<Invocation, ArgError> {
    if exists|i: int| 0 <= i < args.len() && is_help_arg(#[trigger] args[i]) {
        Ok(Invocation::Help)
    } else {
        match scan_args(args, launcher) {
            Err(e) => Err(e),
            Ok((mode, _, cfg)) => if launcher && args.len() == 0 {
                Ok(Invocation::Menu)
            } else {
                Ok(match mode {
                    Mode::Pair => Invocation::Pair,
                    Mode::Doctor => Invocation::Doctor,
                    Mode::Monitor => Invocation::Run(spec_run_config(false, cfg)),
                    Mode::Gamepad => Invocation::Run(spec_run_config(true, cfg)),
                })
            },
        }
    }
}

/// Whether `a` is exactly `lit`.
fn arg_is(a: &String, lit: &str) -> (res: bool)
    ensures
        res == (a@ == lit@),
{
    let l = String::from_str(lit);
    *a == l
}

/// The settings a connection runs with, as [`spec_run_config`] says.
pub fn run_config(gamepad: bool, cfg: Config) -> (res: Config)
    ensures
        res == spec_run_config(gamepad, cfg),
{
    Config { gamepad, no_tare: cfg.no_tare || !gamepad, ..cfg }
}

/// Reads the command line (without the program name).
pub fn parse_args(args: &[String], launcher: bool) -> (res: Result<Invocation, ArgError>)
    ensures
        res == spec_parse_args(args@.map_values(|s: String| s@), launcher),
{
    let ghost v = args@.map_values(|s: String| s@);
    let mut h: usize = 0;
    while h < args.len()
        invariant
            h <= args@.len(),
            v == args@.map_values(|s: String| s@),
            forall|i: int| 0 <= i < h ==> !is_help_arg(#[trigger] v[i]),
        decreases args@.len() - h,
    {
        if arg_is(&args[h], "--help") || arg_is(&args[h], "-h") {
            assert(is_help_arg(v[h as int]));
            return Ok(Invocation::Help);
        }
        h = h + 1;
    }
    let mut mode = if launcher { Mode::Monitor } else { Mode::Gamepad };
    let mut chosen = false;
    let mut cfg = Config { gamepad: false, no_tare: false, no_smooth: false, no_cache: false };
    let mut i: usize = 0;
    while i < args.len()
        invariant
            i <= args@.len(),
            v == args@.map_values(|s: String| s@),
            scan_args(v.take(i as int), launcher) == Ok::<(Mode, bool, Config), ArgError>((mode, chosen, cfg)),
            forall|k: int| 0 <= k < v.len() ==> !is_help_arg(#[trigger] v[k]),
        decreases args@.len() - i,
    {
        proof {
            assert(v.take(i + 1).drop_last() =~= v.take(i as int));
            assert(v.take(i + 1).last() == args@[i as int]@);
        }
        let a = &args[i];
        if arg_is(a, "--monitor") || arg_is(a, "--gamepad") || arg_is(a, "--pair") || arg_is(a, "--doctor") {
            if chosen {
                proof {
                    assert(scan_args(v, launcher) == Err::<(Mode, bool, Config), ArgError>(ArgError::MultipleModes))
                        by { lemma_scan_error_sticks(v, launcher, i + 1); }
                }
                return Err(ArgError::MultipleModes);
            }
            chosen = true;
            mode = if arg_is(a, "--monitor") {
                Mode::Monitor
            } else if arg_is(a, "--gamepad") {
                Mode::Gamepad
            } else if arg_is(a, "--pair") {
                Mode::Pair
            } else {
                Mode::Doctor
            };
        } else if arg_is(a, "--no-tare") {
            cfg.no_tare = true;
        } else if arg_is(a, "--no-smooth") {
            cfg.no_smooth = true;
        } else if arg_is(a, "--no-cache") {
            cfg.no_cache = true;
        } else if arg_is(a, "--verbose") || arg_is(a, "-v") {
        } else {
            proof {
                assert(scan_args(v, launcher) == Err::<(Mode, bool, Config), ArgError>(ArgError::UnknownOption(i)))
                    by { lemma_scan_error_sticks(v, launcher, i + 1); }
            }
            return Err(ArgError::UnknownOption(i));
        }
        i = i + 1;
    }
    proof {
        assert(v.take(v.len() as int) =~= v);
    }
    if launcher && args.len() == 0 {
        return Ok(Invocation::Menu);
    }
    Ok(match mode {
        Mode::Pair => Invocation::Pair,
        Mode::Doctor => Invocation::Doctor,
        Mode::Monitor => Invocation::Run(run_config(false, cfg)),
        Mode::Gamepad => Invocation::Run(run_config(true, cfg)),
    })
}

/// Once reading the arguments has failed, further arguments keep the error.
proof fn lemma_scan_error_sticks(args: Seq<Seq<char>>, launcher: bool, n: int)
    requires
        0 <= n <= args.len(),
        scan_args(args.take(n), launcher) is Err,
    ensures
        scan_args(args, launcher) == scan_args(args.take(n), launcher),
    decreases args.len() - n,
{
    if n < args.len() {
        assert(args.take(n + 1).drop_last() =~= args.take(n));
        lemma_scan_error_sticks(args, launcher, n + 1);
    } else {
        assert(args.take(n) =~= args);
    }
}

/// The text for a refused command line; an unknown option is quoted.
pub open spec fn arg_error_text(e: ArgError, args: Seq<Seq<char>>) -> Seq<char> {
    match e {
        ArgError::MultipleModes => "Choose only one mode."@,
        ArgError::UnknownOption(i) => "Unknown option "@ + args[i as int] + ". Use --help."@,
    }
}

impl ArgError {
    /// Describes the refusal, quoting the offending argument.
    pub fn message(&self, args: &[String]) -> (res: String)
        requires
            *self matches ArgError::UnknownOption(i) ==> i < args@.len(),
        ensures
            res@ == arg_error_text(*self, args@.map_values(|s: String| s@)),
    {
        let mut s = String::new();
        match self {
            ArgError::MultipleModes => s.append("Choose only one mode."),
            ArgError::UnknownOption(i) => {
                s.append("Unknown option ");
                s.append(args[*i].as_str());
                s.append(". Use --help.");
            },
        }
        s
    }
}

/// An answer at the launcher menu.
#[derive(Clone, Copy, Debug, PartialEq, Eq, Structural)]
pub enum MenuChoice {
    /// `1`: connect and view live weight.
    Monitor,
    /// `2`: start controller output.
    Gamepad,
    /// `3`: pair a board.
    Pair,
    /// `4`: check the setup.
    Doctor,
    /// `Q` or `q`: quit.
    Quit,
    /// Anything else: ask again.
    Invalid,
}

/// The choice a (trimmed) menu answer makes.
pub open spec fn spec_menu_choice(answer: Seq<char>) -> MenuChoice {
    if answer == "1"@ {
        MenuChoice::Monitor
    } else if answer == "2"@ {
        MenuChoice::Gamepad
    } else if answer == "3"@ {
        MenuChoice::Pair
    } else if answer == "4"@ {
        MenuChoice::Doctor
    } else if answer == "q"@ || answer == "Q"@ {
        MenuChoice::Quit
    } else {
        MenuChoice::Invalid
    }
}

/// Reads a (trimmed) menu answer.
pub fn menu_choice(answer: &String) -> (res: MenuChoice)
    ensures
        res == spec_menu_choice(answer@),
{
    if arg_is(answer, "1") {
        MenuChoice::Monitor
    } else if arg_is(answer, "2") {
        MenuChoice::Gamepad
    } else if arg_is(answer, "3") {
        MenuChoice::Pair
    } else if arg_is(answer, "4") {
        MenuChoice::Doctor
    } else if arg_is(answer, "q") || arg_is(answer, "Q") {
        MenuChoice::Quit
    } else {
        MenuChoice::Invalid
    }
}


/// Monitoring never creates a controller and never waits for stance
/// centering, so readings show at once; gamepad mode keeps the requested
/// centering.
pub proof fn lemma_monitor_never_centers(args: Seq<Seq<char>>, launcher: bool)
    ensures
        spec_parse_args(args, launcher) matches Ok(Invocation::Run(c)) ==> (!c.gamepad ==> c.no_tare),
        scan_args(args, launcher) matches Ok((mode, _, asked)) ==> (mode == Mode::Gamepad ==> (
            spec_parse_args(args, launcher) matches Ok(Invocation::Run(c)) ==> c.gamepad && c.no_tare
                == asked.no_tare)),
{
}

/// Some argument is exactly `lit`.
pub open spec fn given(args: Seq<Seq<char>>, lit: Seq<char>) -> bool {
    exists|i: int| 0 <= i < args.len() && #[trigger] args[i] == lit
}

/// An argument is in `args` exactly when it is in all but the last, or is the last.
proof fn lemma_given_last(args: Seq<Seq<char>>, lit: Seq<char>)
    requires
        args.len() > 0,
    ensures
        given(args, lit) == (given(args.drop_last(), lit) || args.last() == lit),
{
    let prev = args.drop_last();
    if given(prev, lit) {
        let i = choose|i: int| 0 <= i < prev.len() && #[trigger] prev[i] == lit;
        assert(args[i] == prev[i]);
    }
    if args.last() == lit {
        assert(args[args.len() - 1] == lit);
    }
    if given(args, lit) {
        let i = choose|i: int| 0 <= i < args.len() && #[trigger] args[i] == lit;
        if i < args.len() - 1 {
            assert(prev[i] == args[i]);
        }
    }
}

/// The words the command line knows are all different.
proof fn lemma_words_differ()
    ensures
        ({
            let w = seq!["--monitor"@, "--gamepad"@, "--pair"@, "--doctor"@, "--no-tare"@, "--no-smooth"@,
                "--no-cache"@, "--verbose"@, "-v"@];
            forall|i: int, j: int| 0 <= i < j < 9 ==> w[i] != w[j]
        }),
{
    reveal_strlit("--monitor");
    reveal_strlit("--gamepad");
    reveal_strlit("--pair");
    reveal_strlit("--doctor");
    reveal_strlit("--no-tare");
    reveal_strlit("--no-smooth");
    reveal_strlit("--no-cache");
    reveal_strlit("--verbose");
    reveal_strlit("-v");
    let w = seq!["--monitor"@, "--gamepad"@, "--pair"@, "--doctor"@, "--no-tare"@, "--no-smooth"@,
        "--no-cache"@, "--verbose"@, "-v"@];
    assert forall|i: int, j: int| 0 <= i < j < 9 implies w[i] != w[j] by {
        if w[i].len() == w[j].len() {
            assert(w[i][2] != w[j][2]);
        }
    }
}

/// What reading the arguments keeps: each option is on exactly when it was
/// given; a named mode is the mode, and with none the starting mode stays.
proof fn lemma_scan_keeps(args: Seq<Seq<char>>, launcher: bool)
    ensures
        scan_args(args, launcher) matches Ok((mode, chosen, cfg)) ==> {
            &&& !cfg.gamepad
            &&& cfg.no_tare == given(args, "--no-tare"@)
            &&& cfg.no_smooth == given(args, "--no-smooth"@)
            &&& cfg.no_cache == given(args, "--no-cache"@)
            &&& chosen == (given(args, "--monitor"@) || given(args, "--gamepad"@) || given(args, "--pair"@)
                || given(args, "--doctor"@))
            &&& given(args, "--monitor"@) ==> mode == Mode::Monitor
            &&& given(args, "--gamepad"@) ==> mode == Mode::Gamepad
            &&& given(args, "--pair"@) ==> mode == Mode::Pair
            &&& given(args, "--doctor"@) ==> mode == Mode::Doctor
            &&& !chosen ==> mode == (if launcher { Mode::Monitor } else { Mode::Gamepad })
        },
    decreases args.len(),
{
    lemma_words_differ();
    let w = seq!["--monitor"@, "--gamepad"@, "--pair"@, "--doctor"@, "--no-tare"@, "--no-smooth"@,
        "--no-cache"@, "--verbose"@, "-v"@];
    assert(w[0] != w[1] && w[0] != w[2] && w[0] != w[3] && w[1] != w[2] && w[1] != w[3] && w[2] != w[3]);
    assert(w[4] != w[0] && w[4] != w[1] && w[4] != w[2] && w[4] != w[3]);
    assert(w[5] != w[0] && w[5] != w[1] && w[5] != w[2] && w[5] != w[3] && w[5] != w[4]);
    assert(w[6] != w[0] && w[6] != w[1] && w[6] != w[2] && w[6] != w[3] && w[6] != w[4] && w[6] != w[5]);
    assert(w[7] != w[0] && w[7] != w[1] && w[7] != w[2] && w[7] != w[3] && w[7] != w[4] && w[7] != w[5] && w[7] != w[6]);
    assert(w[8] != w[0] && w[8] != w[1] && w[8] != w[2] && w[8] != w[3] && w[8] != w[4] && w[8] != w[5] && w[8] != w[6]);
    if args.len() > 0 {
        let prev = args.drop_last();
        lemma_scan_keeps(prev, launcher);
        lemma_given_last(args, "--no-tare"@);
        lemma_given_last(args, "--no-smooth"@);
        lemma_given_last(args, "--no-cache"@);
        lemma_given_last(args, "--monitor"@);
        lemma_given_last(args, "--gamepad"@);
        lemma_given_last(args, "--pair"@);
        lemma_given_last(args, "--doctor"@);
    } else {
        assert(!given(args, "--no-tare"@));
        assert(!given(args, "--no-smooth"@));
        assert(!given(args, "--no-cache"@));
        assert(!given(args, "--monitor"@));
        assert(!given(args, "--gamepad"@));
        assert(!given(args, "--pair"@));
        assert(!given(args, "--doctor"@));
    }
}

/// What a command line yields, in terms of its words:
/// - `--help` or `-h` anywhere asks for the usage, and only they do;
/// - the launcher with no arguments shows the menu;
/// - pairing and checking the setup come only from `--pair` and `--doctor`;
/// - a connection drives a controller when `--gamepad` is given, or when the
///   bridge is started without `--monitor`; it skips stance centering when
///   `--no-tare` is given or when only monitoring; smoothing and the
///   calibration cache are off exactly when `--no-smooth` and `--no-cache`
///   are given.
pub proof fn lemma_parse_args_meaning(args: Seq<Seq<char>>, launcher: bool)
    ensures
        (exists|i: int| 0 <= i < args.len() && (args[i] == "--help"@ || args[i] == "-h"@))
            <==> spec_parse_args(args, launcher) == Ok::<Invocation, ArgError>(Invocation::Help),
        launcher && args.len() == 0 ==> spec_parse_args(args, launcher) == Ok::<Invocation, ArgError>(Invocation::Menu),
        spec_parse_args(args, launcher) == Ok::<Invocation, ArgError>(Invocation::Pair)
            ==> exists|i: int| 0 <= i < args.len() && args[i] == "--pair"@,
        spec_parse_args(args, launcher) == Ok::<Invocation, ArgError>(Invocation::Doctor)
            ==> exists|i: int| 0 <= i < args.len() && args[i] == "--doctor"@,
        spec_parse_args(args, launcher) matches Ok(Invocation::Run(c)) ==> {
            &&& c.gamepad == ((exists|i: int| 0 <= i < args.len() && args[i] == "--gamepad"@)
                || (!launcher && !exists|i: int| 0 <= i < args.len() && args[i] == "--monitor"@))
            &&& c.no_tare == ((exists|i: int| 0 <= i < args.len() && args[i] == "--no-tare"@) || !c.gamepad)
            &&& c.no_smooth == exists|i: int| 0 <= i < args.len() && args[i] == "--no-smooth"@
            &&& c.no_cache == exists|i: int| 0 <= i < args.len() && args[i] == "--no-cache"@
        },
{
    lemma_scan_keeps(args, launcher);
    lemma_words_differ();
    reveal_strlit("--help");
    reveal_strlit("-h");
    if exists|i: int| 0 <= i < args.len() && (args[i] == "--help"@ || args[i] == "-h"@) {
        let i = choose|i: int| 0 <= i < args.len() && (args[i] == "--help"@ || args[i] == "-h"@);
        assert(is_help_arg(args[i]));
    }
    if exists|i: int| 0 <= i < args.len() && is_help_arg(#[trigger] args[i]) {
        let i = choose|i: int| 0 <= i < args.len() && is_help_arg(#[trigger] args[i]);
        assert(args[i] == "--help"@ || args[i] == "-h"@);
    }
}

} // verus!
