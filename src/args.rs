//! The run configuration that the engine reads: filters, selection flags,
//! the requested number of threads and the output settings.
use vstd::prelude::*;

verus! {

/// Command line arguments.
///
/// This type represents everything the user can specify via CLI args. The
/// engine reads the filter string, `exact`, the `skip` patterns, the
/// `ignored`, `test` and `bench` flags, `list` and the number of threads;
/// the remaining settings are for whoever prints the report.
#[derive(Clone, Debug)]
pub struct Arguments {
    /// Determines if ignored tests should be run.
    pub ignored: bool,
    /// Run tests, but not benchmarks.
    pub test: bool,
    /// Run benchmarks, but not tests.
    pub bench: bool,
    /// Only list all tests and benchmarks.
    pub list: bool,
    /// If set, stdout/stderr are not captured during the test but are instead
    /// printed directly.
    pub nocapture: bool,
    /// If set, filters are matched exactly rather than by substring.
    pub exact: bool,
    /// If set, display only one character per test instead of one line.
    /// This is an alias for `--format=terse`. If this is set, `format` is
    /// `None`.
    pub quiet: bool,
    /// Number of threads used for parallel testing.
    pub num_threads: Option<u32>,
    /// Path of the logfile. If specified, everything will be written into the
    /// file instead of stdout.
    pub logfile: Option<String>,
    /// A list of filters. Tests whose names contain parts of any of these
    /// filters are skipped.
    pub skip: Vec<String>,
    /// Specifies whether or not to color the output.
    pub color: Option<ColorSetting>,
    /// Specifies the format of the output.
    pub format: Option<FormatSetting>,
    /// Filter string. Only tests which contain this string are run.
    pub filter_string: Option<String>,
}

impl Default for Arguments {
    /// No flag set, no option given, no filter and no skip pattern.
    fn default() -> (r: Self)
        ensures
            !r.ignored && !r.test && !r.bench && !r.list,
            !r.nocapture && !r.exact && !r.quiet,
            r.num_threads is None,
            r.logfile is None,
            r.skip@.len() == 0,
            r.color is None,
            r.format is None,
            r.filter_string is None,
    {
        Arguments {
            ignored: false,
            test: false,
            bench: false,
            list: false,
            nocapture: false,
            exact: false,
            quiet: false,
            num_threads: None,
            logfile: None,
            skip: Vec::new(),
            color: None,
            format: None,
            filter_string: None,
        }
    }
}

/// Possible values for the `--color` option.
#[derive(Debug, Clone, Copy, PartialEq, Eq, Structural)]
pub enum ColorSetting {
    /// Colorize output if stdout is a tty and tests are run on serially
    /// (default).
    Auto,
    /// Always colorize output.
    Always,
    /// Never colorize output.
    Never,
}

/// The color setting that the word `s` names, if any.
pub open spec fn color_setting_named(s: Seq<char>) -> Option<ColorSetting> {
    if s == "auto"@ {
        Some(ColorSetting::Auto)
    } else if s == "always"@ {
        Some(ColorSetting::Always)
    } else if s == "never"@ {
        Some(ColorSetting::Never)
    } else {
        None
    }
}

impl ColorSetting {
    /// Reads one of the words `auto`, `always` and `never`.
    pub fn parse(s: &str) -> (r: Result<ColorSetting, &'static str>)
        ensures
            match color_setting_named(s@) {
                Some(c) => r == Ok::<ColorSetting, &'static str>(c),
                None => r is Err,
            },
    {
        let w = s.to_owned();
        if w == "auto".to_owned() {
            Ok(ColorSetting::Auto)
        } else if w == "always".to_owned() {
            Ok(ColorSetting::Always)
        } else if w == "never".to_owned() {
            Ok(ColorSetting::Never)
        } else {
            Err("foo")
        }
    }
}

impl Default for ColorSetting {
    fn default() -> (r: Self)
        ensures
            r == ColorSetting::Auto,
    {
        ColorSetting::Auto
    }
}

impl std::str::FromStr for ColorSetting {
    type Err = &'static str;

    fn from_str(s: &str) -> Result<Self, Self::Err> {
        ColorSetting::parse(s)
    }
}

/// Possible values for the `--format` option.
#[derive(Debug, Clone, Copy, PartialEq, Eq, Structural)]
pub enum FormatSetting {
    /// One line per test. Output for humans. (default)
    Pretty,
    /// One character per test. Usefull for test suites with many tests.
    Terse,
    /// Output as JSON.
    Json,
}

/// The output format that the word `s` names, if any.
pub open spec fn format_setting_named(s: Seq<char>) -> Option<FormatSetting> {
    if s == "pretty"@ {
        Some(FormatSetting::Pretty)
    } else if s == "terse"@ {
        Some(FormatSetting::Terse)
    } else if s == "json"@ {
        Some(FormatSetting::Json)
    } else {
        None
    }
}

impl FormatSetting {
    /// Reads one of the words `pretty`, `terse` and `json`.
    pub fn parse(s: &str) -> (r: Result<FormatSetting, &'static str>)
        ensures
            match format_setting_named(s@) {
                Some(f) => r == Ok::<FormatSetting, &'static str>(f),
                None => r is Err,
            },
    {
        let w = s.to_owned();
        if w == "pretty".to_owned() {
            Ok(FormatSetting::Pretty)
        } else if w == "terse".to_owned() {
            Ok(FormatSetting::Terse)
        } else if w == "json".to_owned() {
            Ok(FormatSetting::Json)
        } else {
            Err("foo")
        }
    }
}

impl Default for FormatSetting {
    fn default() -> (r: Self)
        ensures
            r == FormatSetting::Pretty,
    {
        FormatSetting::Pretty
    }
}

impl std::str::FromStr for FormatSetting {
    type Err = &'static str;

    fn from_str(s: &str) -> Result<Self, Self::Err> {
        FormatSetting::parse(s)
    }
}

} // verus!
