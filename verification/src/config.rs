//! The effective configuration: the command (check or view), the target
//! system, the filter, the outputs and the limits, together with the
//! option traits that the pipeline reads them through.

use vstd::prelude::*;
use crate::rdh::spec_layer_stave_fee;

verus! {

/// The view kinds.
#[derive(Clone, Copy, PartialEq, Eq, Structural, Debug)]
pub enum ViewCommands {
    Rdh,
    Hbf,
    ItsReadoutFrames,
    ItsReadoutFramesData,
}

/// The systems whose payload can be checked beyond the RDH level.
#[derive(Clone, Copy, PartialEq, Eq, Structural, Debug)]
#[allow(non_camel_case_types)]
pub enum System {
    ITS,
    ITS_Stave,
}

/// The target system of a check, if one is named.
#[derive(Clone, Copy, PartialEq, Eq, Structural, Debug)]
pub struct Target {
    /// Target system for checks.
    pub system: Option<System>,
}

/// The check commands: all checks (sanity, running, and payload checks
/// when a system is targeted), or the per-RDH sanity checks alone.
#[derive(Clone, Copy, PartialEq, Eq, Structural, Debug)]
pub enum Check {
    All(Target),
    Sanity(Target),
}

impl Check {
    /// The target system for the check.
    pub fn target(&self) -> (r: Option<System>)
        ensures
            r == self.spec_target(),
    {
        match self {
            Check::All(target) => target.system,
            Check::Sanity(target) => target.system,
        }
    }

    /// The target system for the check.
    pub open spec fn spec_target(self) -> Option<System> {
        match self {
            Check::All(target) => target.system,
            Check::Sanity(target) => target.system,
        }
    }
}

/// The commands: perform checks, or render a view.
#[derive(Clone, Copy, PartialEq, Eq, Structural, Debug)]
pub enum Command {
    Check(Check),
    View(ViewCommands),
}

/// Where filtered data is written: a file, standard output, or nowhere.
#[derive(Clone, Copy, PartialEq, Eq, Structural, Debug)]
pub enum DataOutputMode {
    File,
    Stdout,
    Disabled,
}

impl DataOutputMode {
    /// The mode's name.
    pub fn to_str(&self) -> (r: &'static str)
        ensures
            self is File ==> r@ == "File"@,
            self is Stdout ==> r@ == "Stdout"@,
            self is Disabled ==> r@ == "None"@,
    {
        match self {
            DataOutputMode::File => "File",
            DataOutputMode::Stdout => "Stdout",
            DataOutputMode::Disabled => "None",
        }
    }
}

/// Small utility options.
pub trait UtilOpt {
    /// Verbosity level of the logger: 0 errors, 1 warnings, 2
    /// information, 3 debug, 4 trace.
    spec fn spec_verbosity(&self) -> u8;

    /// Maximum number of errors to tolerate before stopping; 0 means no
    /// limit.
    spec fn spec_max_tolerate_errors(&self) -> u32;

    /// The exit code to use when any validation error occurred, if one
    /// was asked for.
    spec fn spec_any_errors_exit_code(&self) -> Option<u8>;

    /// Verbosity level of the logger.
    fn verbosity(&self) -> (r: u8)
        ensures
            r == self.spec_verbosity(),
    ;

    /// Maximum number of errors to tolerate; 0 means no limit.
    fn max_tolerate_errors(&self) -> (r: u32)
        ensures
            r == self.spec_max_tolerate_errors(),
    ;

    /// The exit code to use when any validation error occurred.
    fn any_errors_exit_code(&self) -> (r: Option<u8>)
        ensures
            r == self.spec_any_errors_exit_code(),
    ;
}

/// The filter options; at most one of them is set.
pub trait FilterOpt {
    /// The CRU link to filter by.
    spec fn spec_filter_link(&self) -> Option<u8>;

    /// The FEE ID to filter by.
    spec fn spec_filter_fee(&self) -> Option<u16>;

    /// The stave string (`L0_12`) to filter by, as given.
    spec fn spec_filter_its_stave_str(&self) -> Option<Seq<char>>;

    /// The CRU link to filter by.
    fn filter_link(&self) -> (r: Option<u8>)
        ensures
            r == self.spec_filter_link(),
    ;

    /// The FEE ID to filter by.
    fn filter_fee(&self) -> (r: Option<u16>)
        ensures
            r == self.spec_filter_fee(),
    ;

    /// The FEE ID that the stave filter denotes: the layer and stave
    /// packed as `{layer, 0, 0, stave}`.
    fn filter_its_stave(&self) -> (r: Option<u16>)
        ensures
            r == (match self.spec_filter_its_stave_str() {
                Some(s) => spec_layer_stave_fee(s),
                None => None,
            }),
    ;
}

/// Input and output options.
pub trait InputOutputOpt {
    /// The input file to read from, when not standard input.
    spec fn spec_input_file(&self) -> Option<Seq<char>>;

    /// The output path for filtered data, when one was given
    /// (`stdout` for standard output).
    spec fn spec_output(&self) -> Option<Seq<char>>;

    /// The path of an earlier stats snapshot to compare the run
    /// against, if one was given.
    spec fn spec_input_stats_file(&self) -> Option<Seq<char>>;

    /// The payload may be skipped at input: nothing reads it, which is
    /// the case for the RDH view and for checks without a target
    /// system.
    spec fn spec_skip_payload(&self) -> bool;

    /// Where filtered data is written: the named file, standard output
    /// when the path is `stdout` or when neither an output nor a
    /// command was given, and nowhere when a command runs without an
    /// output.
    spec fn spec_output_mode(&self) -> DataOutputMode;

    /// The input file to read from, when not standard input.
    fn input_file(&self) -> (r: &Option<String>)
        ensures
            r is Some <==> self.spec_input_file() is Some,
            r matches Some(s) ==> self.spec_input_file() == Some(s@),
    ;

    /// The output path for filtered data, when one was given.
    fn output(&self) -> (r: &Option<String>)
        ensures
            r is Some <==> self.spec_output() is Some,
            r matches Some(s) ==> self.spec_output() == Some(s@),
    ;

    /// The path of an earlier stats snapshot to compare against.
    fn input_stats_file(&self) -> (r: &Option<String>)
        ensures
            r is Some <==> self.spec_input_stats_file() is Some,
            r matches Some(s) ==> self.spec_input_stats_file() == Some(s@),
    ;

    /// Whether the payload may be skipped at input.
    fn skip_payload(&self) -> (r: bool)
        ensures
            r == self.spec_skip_payload(),
    ;

    /// Where filtered data is written.
    fn output_mode(&self) -> (r: DataOutputMode)
        ensures
            r == self.spec_output_mode(),
    ;
}

/// The string ends with the given suffix.
pub open spec fn spec_ends_with(s: Seq<char>, suffix: Seq<char>) -> bool {
    s.len() >= suffix.len() && s.subrange(s.len() - suffix.len(), s.len() as int) == suffix
}

/// A stats file path carries one of the two accepted extensions.
pub open spec fn spec_stats_ext_ok(s: Seq<char>) -> bool {
    spec_ends_with(s, ".json"@) || spec_ends_with(s, ".toml"@)
}

/// The string ends with the given suffix.
pub fn str_ends_with(s: &str, suffix: &str) -> (r: bool)
    ensures
        r == spec_ends_with(s@, suffix@),
{
    let n = s.unicode_len();
    let m = suffix.unicode_len();
    if m > n {
        return false;
    }
    let mut k: usize = 0;
    while k < m
        invariant
            n == s@.len(),
            m == suffix@.len(),
            m <= n,
            k <= m,
            forall|q: int| 0 <= q < k ==> s@[n - m + q] == suffix@[q],
        decreases m - k,
    {
        if s.get_char(n - m + k) != suffix.get_char(k) {
            assert(s@.subrange(n - m as int, n as int)[k as int] != suffix@[k as int]);
            return false;
        }
        k = k + 1;
    }
    assert(s@.subrange(n - m as int, n as int) =~= suffix@);
    true
}

/// A stats file path carries one of the two accepted extensions.
pub fn stats_ext_ok(s: &str) -> (r: bool)
    ensures
        r == spec_stats_ext_ok(s@),
{
    str_ends_with(s, ".json") || str_ends_with(s, ".toml")
}

/// The view options.
pub trait ViewOpt {
    /// The view to render, if a view was asked for.
    spec fn spec_view_command(&self) -> Option<ViewCommands>;

    /// The view to render.
    fn view_command(&self) -> (r: Option<ViewCommands>)
        ensures
            r == self.spec_view_command(),
    ;
}

/// The check options.
pub trait ChecksOpt {
    /// The check to perform, if checking was asked for.
    spec fn spec_check(&self) -> Option<Check>;

    /// The expected ITS trigger period, if the check was asked for.
    spec fn spec_check_its_trigger_period(&self) -> Option<u16>;

    /// The check to perform.
    fn check(&self) -> (r: Option<Check>)
        ensures
            r == self.spec_check(),
    ;

    /// The expected ITS trigger period.
    fn check_its_trigger_period(&self) -> (r: Option<u16>)
        ensures
            r == self.spec_check_its_trigger_period(),
    ;
}

/// The arguments are consistent: checking a single stave is asked for
/// with `check all`, a trigger period only together with it, an
/// any-errors exit code is never 0, and an input stats file carries a
/// `.json` or `.toml` extension.
pub open spec fn spec_args_ok(
    check: Option<Check>,
    trigger_period: Option<u16>,
    any_errors_exit_code: Option<u8>,
    input_stats_file: Option<Seq<char>>,
) -> bool {
    &&& !(check matches Some(Check::Sanity(t)) && t.system == Some(System::ITS_Stave))
    &&& (trigger_period is Some ==> (check matches Some(Check::All(t)) && t.system == Some(
        System::ITS_Stave,
    )))
    &&& any_errors_exit_code != Some(0u8)
    &&& (input_stats_file matches Some(p) ==> spec_stats_ext_ok(p))
}

/// The configuration as the pipeline reads it.
pub trait Config: UtilOpt + FilterOpt + InputOutputOpt + ChecksOpt + ViewOpt {
    /// Reject an inconsistent combination of arguments: `check sanity
    /// its-stave` is not a command, a trigger period demands `check all
    /// its-stave`, an any-errors exit code must not be 0, and an input
    /// stats file must carry a `.json` or `.toml` extension.
    fn validate_args(&self) -> (r: Result<(), String>)
        ensures
            r is Ok <==> spec_args_ok(
                self.spec_check(),
                self.spec_check_its_trigger_period(),
                self.spec_any_errors_exit_code(),
                self.spec_input_stats_file(),
            ),
    {
        if let Some(check) = self.check() {
            if let Check::Sanity(t) = check {
                if t.system == Some(System::ITS_Stave) {
                    return Err(
                        String::from_str(
                            "cannot check ITS stave with `check sanity`, use `check all its-stave`",
                        ),
                    );
                }
            }
        }
        if self.check_its_trigger_period().is_some() {
            let all_stave = match self.check() {
                Some(Check::All(t)) => t.system == Some(System::ITS_Stave),
                _ => false,
            };
            if !all_stave {
                return Err(
                    String::from_str(
                        "specifying a trigger period demands the `check all its-stave` command",
                    ),
                );
            }
        }
        if self.any_errors_exit_code() == Some(0) {
            return Err(String::from_str("exit code for any errors cannot be 0"));
        }
        if let Some(path) = self.input_stats_file() {
            if !stats_ext_ok(path.as_str()) {
                return Err(
                    String::from_str("input stats file has to have a .json or .toml extension"),
                );
            }
        }
        Ok(())
    }

    /// ALPIDE checks run exactly under `check all its-stave`.
    fn alpide_checks_enabled(&self) -> (r: bool)
        ensures
            r == (self.spec_check() matches Some(Check::All(t)) && t.system == Some(
                System::ITS_Stave,
            )),
    {
        match self.check() {
            Some(Check::All(t)) => t.system == Some(System::ITS_Stave),
            _ => false,
        }
    }
}

/// The command-line configuration, as parsed by the program around the
/// library.
#[derive(Clone, Debug)]
pub struct Cfg {
    /// Input file; standard input when absent.
    pub file: Option<String>,
    /// The command, if one was given.
    pub cmd: Option<Command>,
    /// Verbosity level 0 to 4.
    pub verbosity: u8,
    /// Maximum tolerated errors; 0 means no limit.
    pub max_tolerate_errors: u32,
    /// CRU link ID to filter by.
    pub filter_link: Option<u8>,
    /// FEE ID to filter by.
    pub filter_fee: Option<u16>,
    /// ITS layer and stave to filter by, as a string such as `L5_42`.
    pub filter_its_stave: Option<String>,
    /// Expected ITS trigger period.
    pub its_trigger_period: Option<u16>,
    /// Output path for filtered data; `stdout` for standard output.
    pub output: Option<String>,
    /// Exit code to use when any validation error occurred.
    pub any_errors_exit_code: Option<u8>,
    /// Path of an earlier stats snapshot to compare the run against.
    pub input_stats: Option<String>,
}

impl Cfg {
    /// A stave filter string, when present, must denote a stave.
    pub open spec fn wf(self) -> bool {
        self.filter_its_stave matches Some(s) ==> spec_layer_stave_fee(s@) is Some
    }
}

impl UtilOpt for Cfg {
    open spec fn spec_verbosity(&self) -> u8 {
        self.verbosity
    }

    open spec fn spec_max_tolerate_errors(&self) -> u32 {
        self.max_tolerate_errors
    }

    open spec fn spec_any_errors_exit_code(&self) -> Option<u8> {
        self.any_errors_exit_code
    }

    fn verbosity(&self) -> u8 {
        self.verbosity
    }

    fn max_tolerate_errors(&self) -> u32 {
        self.max_tolerate_errors
    }

    fn any_errors_exit_code(&self) -> Option<u8> {
        self.any_errors_exit_code
    }
}

impl FilterOpt for Cfg {
    open spec fn spec_filter_link(&self) -> Option<u8> {
        self.filter_link
    }

    open spec fn spec_filter_fee(&self) -> Option<u16> {
        self.filter_fee
    }

    open spec fn spec_filter_its_stave_str(&self) -> Option<Seq<char>> {
        match self.filter_its_stave {
            Some(s) => Some(s@),
            None => None,
        }
    }

    fn filter_link(&self) -> Option<u8> {
        self.filter_link
    }

    fn filter_fee(&self) -> Option<u16> {
        self.filter_fee
    }

    fn filter_its_stave(&self) -> Option<u16> {
        match &self.filter_its_stave {
            Some(s) => crate::rdh::layer_stave_string_to_feeid(s.as_str()),
            None => None,
        }
    }
}

impl InputOutputOpt for Cfg {
    open spec fn spec_input_file(&self) -> Option<Seq<char>> {
        match self.file {
            Some(s) => Some(s@),
            None => None,
        }
    }

    open spec fn spec_output(&self) -> Option<Seq<char>> {
        match self.output {
            Some(s) => Some(s@),
            None => None,
        }
    }

    open spec fn spec_input_stats_file(&self) -> Option<Seq<char>> {
        match self.input_stats {
            Some(s) => Some(s@),
            None => None,
        }
    }

    open spec fn spec_skip_payload(&self) -> bool {
        match self.cmd {
            Some(Command::View(ViewCommands::Rdh)) => true,
            Some(Command::Check(c)) => c.spec_target() is None,
            _ => false,
        }
    }

    open spec fn spec_output_mode(&self) -> DataOutputMode {
        match self.output {
            Some(path) => if path@ == "stdout"@ {
                DataOutputMode::Stdout
            } else {
                DataOutputMode::File
            },
            None => if self.cmd is Some {
                DataOutputMode::Disabled
            } else {
                DataOutputMode::Stdout
            },
        }
    }

    fn input_file(&self) -> &Option<String> {
        &self.file
    }

    fn output(&self) -> &Option<String> {
        &self.output
    }

    fn input_stats_file(&self) -> &Option<String> {
        &self.input_stats
    }

    fn skip_payload(&self) -> bool {
        match &self.cmd {
            Some(Command::View(ViewCommands::Rdh)) => true,
            Some(Command::Check(c)) => match c.target() {
                None => true,
                Some(_) => false,
            },
            _ => false,
        }
    }

    fn output_mode(&self) -> DataOutputMode {
        match &self.output {
            Some(path) => {
                if str_is_stdout(path.as_str()) {
                    DataOutputMode::Stdout
                } else {
                    DataOutputMode::File
                }
            },
            None => {
                match &self.cmd {
                    Some(_) => DataOutputMode::Disabled,
                    None => DataOutputMode::Stdout,
                }
            },
        }
    }
}

impl ViewOpt for Cfg {
    open spec fn spec_view_command(&self) -> Option<ViewCommands> {
        match self.cmd {
            Some(Command::View(v)) => Some(v),
            _ => None,
        }
    }

    fn view_command(&self) -> Option<ViewCommands> {
        match &self.cmd {
            Some(Command::View(v)) => Some(*v),
            _ => None,
        }
    }
}

impl ChecksOpt for Cfg {
    open spec fn spec_check(&self) -> Option<Check> {
        match self.cmd {
            Some(Command::Check(c)) => Some(c),
            _ => None,
        }
    }

    open spec fn spec_check_its_trigger_period(&self) -> Option<u16> {
        self.its_trigger_period
    }

    fn check(&self) -> Option<Check> {
        match &self.cmd {
            Some(Command::Check(c)) => Some(*c),
            _ => None,
        }
    }

    fn check_its_trigger_period(&self) -> Option<u16> {
        self.its_trigger_period
    }
}

impl Config for Cfg {

}

/// The string is exactly `stdout`.
pub fn str_is_stdout(s: &str) -> (r: bool)
    ensures
        r == (s@ == "stdout"@),
{
    let n = s.unicode_len();
    if n != 6 {
        proof {
            reveal_strlit("stdout");
        }
        return false;
    }
    proof {
        reveal_strlit("stdout");
    }
    let r = s.get_char(0) == 's' && s.get_char(1) == 't' && s.get_char(2) == 'd' && s.get_char(3)
        == 'o' && s.get_char(4) == 'u' && s.get_char(5) == 't';
    proof {
        if r {
            assert(s@ =~= "stdout"@);
        }
    }
    r
}

/// A fully configurable mock configuration, for driving the pipeline
/// from tests.
#[derive(Clone, Debug)]
pub struct MockConfig {
    pub check: Option<Check>,
    pub view: Option<ViewCommands>,
    pub filter_link: Option<u8>,
    pub filter_fee: Option<u16>,
    pub filter_its_stave: Option<String>,
    pub verbosity: u8,
    pub max_tolerate_errors: u32,
    pub input_file: Option<String>,
    pub skip_payload: bool,
    pub output: Option<String>,
    pub output_mode: DataOutputMode,
    pub its_trigger_period: Option<u16>,
    pub any_errors_exit_code: Option<u8>,
    pub input_stats_file: Option<String>,
}

impl MockConfig {
    /// A stave filter string, when present, must denote a stave.
    pub open spec fn wf(self) -> bool {
        self.filter_its_stave matches Some(s) ==> spec_layer_stave_fee(s@) is Some
    }
}

impl Default for MockConfig {
    /// The mock with nothing set: no command, no filter, no limits.
    fn default() -> (r: Self)
        ensures
            r.check is None,
            r.view is None,
            r.filter_link is None,
            r.filter_fee is None,
            r.filter_its_stave is None,
            r.verbosity == 0,
            r.max_tolerate_errors == 0,
            r.input_file is None,
            !r.skip_payload,
            r.output is None,
            r.output_mode is Disabled,
            r.its_trigger_period is None,
            r.any_errors_exit_code is None,
            r.input_stats_file is None,
    {
        MockConfig {
            check: None,
            view: None,
            filter_link: None,
            filter_fee: None,
            filter_its_stave: None,
            verbosity: 0,
            max_tolerate_errors: 0,
            input_file: None,
            skip_payload: false,
            output: None,
            output_mode: DataOutputMode::Disabled,
            its_trigger_period: None,
            any_errors_exit_code: None,
            input_stats_file: None,
        }
    }
}

impl UtilOpt for MockConfig {
    open spec fn spec_verbosity(&self) -> u8 {
        self.verbosity
    }

    open spec fn spec_max_tolerate_errors(&self) -> u32 {
        self.max_tolerate_errors
    }

    open spec fn spec_any_errors_exit_code(&self) -> Option<u8> {
        self.any_errors_exit_code
    }

    fn verbosity(&self) -> u8 {
        self.verbosity
    }

    fn max_tolerate_errors(&self) -> u32 {
        self.max_tolerate_errors
    }

    fn any_errors_exit_code(&self) -> Option<u8> {
        self.any_errors_exit_code
    }
}

impl FilterOpt for MockConfig {
    open spec fn spec_filter_link(&self) -> Option<u8> {
        self.filter_link
    }

    open spec fn spec_filter_fee(&self) -> Option<u16> {
        self.filter_fee
    }

    open spec fn spec_filter_its_stave_str(&self) -> Option<Seq<char>> {
        match self.filter_its_stave {
            Some(s) => Some(s@),
            None => None,
        }
    }

    fn filter_link(&self) -> Option<u8> {
        self.filter_link
    }

    fn filter_fee(&self) -> Option<u16> {
        self.filter_fee
    }

    fn filter_its_stave(&self) -> Option<u16> {
        match &self.filter_its_stave {
            Some(s) => crate::rdh::layer_stave_string_to_feeid(s.as_str()),
            None => None,
        }
    }
}

impl InputOutputOpt for MockConfig {
    open spec fn spec_input_file(&self) -> Option<Seq<char>> {
        match self.input_file {
            Some(s) => Some(s@),
            None => None,
        }
    }

    open spec fn spec_output(&self) -> Option<Seq<char>> {
        match self.output {
            Some(s) => Some(s@),
            None => None,
        }
    }

    open spec fn spec_input_stats_file(&self) -> Option<Seq<char>> {
        match self.input_stats_file {
            Some(s) => Some(s@),
            None => None,
        }
    }

    open spec fn spec_skip_payload(&self) -> bool {
        self.skip_payload
    }

    open spec fn spec_output_mode(&self) -> DataOutputMode {
        self.output_mode
    }

    fn input_file(&self) -> &Option<String> {
        &self.input_file
    }

    fn output(&self) -> &Option<String> {
        &self.output
    }

    fn input_stats_file(&self) -> &Option<String> {
        &self.input_stats_file
    }

    fn skip_payload(&self) -> bool {
        self.skip_payload
    }

    fn output_mode(&self) -> DataOutputMode {
        self.output_mode
    }
}

impl ViewOpt for MockConfig {
    open spec fn spec_view_command(&self) -> Option<ViewCommands> {
        self.view
    }

    fn view_command(&self) -> Option<ViewCommands> {
        self.view
    }
}

impl ChecksOpt for MockConfig {
    open spec fn spec_check(&self) -> Option<Check> {
        self.check
    }

    open spec fn spec_check_its_trigger_period(&self) -> Option<u16> {
        self.its_trigger_period
    }

    fn check(&self) -> Option<Check> {
        self.check
    }

    fn check_its_trigger_period(&self) -> Option<u16> {
        self.its_trigger_period
    }
}

impl Config for MockConfig {

}

} // verus!
