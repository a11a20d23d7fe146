//! The generator's command line.

use vstd::prelude::*;
use vstd::string::{StrSliceExecFns, StringExecFns};
use crate::codec::{DEFAULT_LEVEL, MAX_LEVEL};
use crate::generator::{BundleArgs, BundleArgsView};
use crate::paths::{same_text, texts, texts_push};
use crate::runtime::Runtime;

verus! {

/// The options that the generator knows.
#[derive(Clone, Copy, Debug, PartialEq, Eq, Structural)]
pub enum Flag {
    /// `-t`, `--target-binary`: the program to bundle.
    Target,
    /// `-L`, `--compression-level`: a level from 1 to 22.
    Level,
    /// `-l`, `--extra-libs`: one more shared object.
    Lib,
    /// `-b`, `--extra-bins`: one more executable or directory of executables.
    Bin,
    /// `-a`, `--additional-files`: one more file or directory for the root.
    File,
    /// `-h`, `--help`.
    Help,
    /// `-v`, `--version`.
    Version,
}

/// The option that an argument spells, if any.
pub open spec fn spec_flag_of(arg: Seq<char>) -> Option<Flag> {
    if arg == "-t"@ || arg == "--target-binary"@ {
        Some(Flag::Target)
    } else if arg == "-L"@ || arg == "--compression-level"@ {
        Some(Flag::Level)
    } else if arg == "-l"@ || arg == "--extra-libs"@ {
        Some(Flag::Lib)
    } else if arg == "-b"@ || arg == "--extra-bins"@ {
        Some(Flag::Bin)
    } else if arg == "-a"@ || arg == "--additional-files"@ {
        Some(Flag::File)
    } else if arg == "-h"@ || arg == "--help"@ {
        Some(Flag::Help)
    } else if arg == "-v"@ || arg == "--version"@ {
        Some(Flag::Version)
    } else {
        None
    }
}

/// The long spelling of an option.
pub open spec fn spec_flag_name(flag: Flag) -> Seq<char> {
    match flag {
        Flag::Target => "--target-binary"@,
        Flag::Level => "--compression-level"@,
        Flag::Lib => "--extra-libs"@,
        Flag::Bin => "--extra-bins"@,
        Flag::File => "--additional-files"@,
        Flag::Help => "--help"@,
        Flag::Version => "--version"@,
    }
}

/// The option that an argument spells, if any.
pub fn flag_of(arg: &str) -> (flag: Option<Flag>)
    ensures
        flag == spec_flag_of(arg@),
{
    if same_text(arg, "-t") || same_text(arg, "--target-binary") {
        Some(Flag::Target)
    } else if same_text(arg, "-L") || same_text(arg, "--compression-level") {
        Some(Flag::Level)
    } else if same_text(arg, "-l") || same_text(arg, "--extra-libs") {
        Some(Flag::Lib)
    } else if same_text(arg, "-b") || same_text(arg, "--extra-bins") {
        Some(Flag::Bin)
    } else if same_text(arg, "-a") || same_text(arg, "--additional-files") {
        Some(Flag::File)
    } else if same_text(arg, "-h") || same_text(arg, "--help") {
        Some(Flag::Help)
    } else if same_text(arg, "-v") || same_text(arg, "--version") {
        Some(Flag::Version)
    } else {
        None
    }
}

/// The long spelling of an option.
pub fn flag_name(flag: Flag) -> (name: String)
    ensures
        name@ == spec_flag_name(flag),
{
    match flag {
        Flag::Target => String::from_str("--target-binary"),
        Flag::Level => String::from_str("--compression-level"),
        Flag::Lib => String::from_str("--extra-libs"),
        Flag::Bin => String::from_str("--extra-bins"),
        Flag::File => String::from_str("--additional-files"),
        Flag::Help => String::from_str("--help"),
        Flag::Version => String::from_str("--version"),
    }
}

/// Whether `c` is a decimal digit.
pub open spec fn is_digit(c: char) -> bool {
    '0' <= c <= '9'
}

/// The number that a text of decimal digits spells.
pub open spec fn decimal(text: Seq<char>) -> int
    decreases text.len(),
{
    if text.len() == 0 {
        0
    } else {
        10 * decimal(text.drop_last()) + (text.last() as int - '0' as int)
    }
}

/// The digits of a number: the text without the `+` that may lead it.
pub open spec fn unsigned_part(text: Seq<char>) -> Seq<char> {
    if text.len() > 0 && text[0] == '+' {
        text.subrange(1, text.len() as int)
    } else {
        text
    }
}

/// The compression level that a text spells: the text is one or more decimal
/// digits, with or without a `+` before them, and their number is from 1 to
/// 22.
pub open spec fn spec_parse_level(text: Seq<char>) -> Option<i32> {
    let digits = unsigned_part(text);
    if digits.len() > 0 && (forall|i: int| 0 <= i < digits.len() ==> is_digit(#[trigger] digits[i]))
        && 1 <= decimal(digits) <= 22 {
        Some(decimal(digits) as i32)
    } else {
        None
    }
}

proof fn decimal_of_digits_grows(text: Seq<char>)
    requires
        forall|i: int| 0 <= i < text.len() ==> is_digit(#[trigger] text[i]),
    ensures
        0 <= decimal(text),
    decreases text.len(),
{
    if text.len() > 0 {
        let shorter = text.drop_last();
        assert forall|i: int| 0 <= i < shorter.len() implies is_digit(#[trigger] shorter[i]) by {
            assert(shorter[i] == text[i]);
        }
        decimal_of_digits_grows(shorter);
        assert(is_digit(text[text.len() - 1]));
    }
}

/// Reads a compression level.
pub fn parse_level(text: &str) -> (level: Option<i32>)
    ensures
        level == spec_parse_level(text@),
{
    let len: usize = text.unicode_len();
    if len == 0 {
        return None;
    }
    let first: usize = if text.get_char(0) == '+' {
        1
    } else {
        0
    };
    let ghost digits = unsigned_part(text@);
    assert(digits =~= text@.subrange(first as int, len as int));
    if first == len {
        return None;
    }
    let over: i32 = MAX_LEVEL + 1;
    let mut value: i32 = 0;
    let mut i: usize = first;
    while i < len
        invariant
            first <= i <= len,
            len == text@.len(),
            over == 23,
            digits == unsigned_part(text@),
            digits == text@.subrange(first as int, len as int),
            forall|j: int| 0 <= j < i - first ==> is_digit(#[trigger] digits[j]),
            0 <= value <= over,
            decimal(digits.subrange(0, i - first)) <= 22 ==> value == decimal(
                digits.subrange(0, i - first),
            ),
            decimal(digits.subrange(0, i - first)) > 22 ==> value == over,
        decreases len - i,
    {
        let c: char = text.get_char(i);
        assert(digits[i - first] == c);
        if c < '0' || c > '9' {
            proof {
                let k: int = i - first;
                assert(0 <= k < digits.len());
                assert(!is_digit(digits[k]));
                assert(!(forall|j: int| 0 <= j < digits.len() ==> is_digit(#[trigger] digits[j])));
            }
            return None;
        }
        let digit: i32 = (c as u32 - '0' as u32) as i32;
        proof {
            let before = digits.subrange(0, i - first);
            let after = digits.subrange(0, i - first + 1);
            assert(after.drop_last() =~= before);
            assert(after.last() == c);
            assert(decimal(after) == 10 * decimal(before) + digit);
            assert forall|j: int| 0 <= j < before.len() implies is_digit(#[trigger] before[j]) by {
                assert(before[j] == digits[j]);
            }
            decimal_of_digits_grows(before);
        }
        if value >= over {
            value = over;
        } else {
            value = 10 * value + digit;
            if value > over {
                value = over;
            }
        }
        i += 1;
    }
    assert(digits.subrange(0, len - first) =~= digits);
    if 1 <= value && value <= MAX_LEVEL {
        Some(value)
    } else {
        None
    }
}

/// What the command line asks for.
#[derive(Debug)]
pub struct Cli {
    pub target_binary: Option<String>,
    pub compression_level: i32,
    pub extra_libs: Vec<String>,
    pub extra_bins: Vec<String>,
    pub additional_files: Vec<String>,
}

/// The mathematical content of a `Cli`.
pub struct CliView {
    pub target_binary: Option<Seq<char>>,
    pub compression_level: i32,
    pub extra_libs: Seq<Seq<char>>,
    pub extra_bins: Seq<Seq<char>>,
    pub additional_files: Seq<Seq<char>>,
}

impl View for Cli {
    type V = CliView;

    open spec fn view(&self) -> CliView {
        CliView {
            target_binary: match self.target_binary {
                Some(t) => Some(t@),
                None => None,
            },
            compression_level: self.compression_level,
            extra_libs: texts(self.extra_libs@),
            extra_bins: texts(self.extra_bins@),
            additional_files: texts(self.additional_files@),
        }
    }
}

/// Why a command line was not turned into a request.
#[derive(Debug)]
pub enum CliError {
    /// The option named here is the last argument and lacks its value.
    MissingValue(String),
    /// This text is no compression level from 1 to 22.
    InvalidLevel(String),
    /// This argument is no option of the generator.
    UnknownOption(String),
    /// No target binary was named.
    MissingTarget,
    /// Help was asked for: there is nothing to generate.
    HelpDisplayed,
    /// The version was asked for: there is nothing to generate.
    VersionDisplayed,
}

/// The mathematical content of a `CliError`.
pub enum CliErrorView {
    MissingValue(Seq<char>),
    InvalidLevel(Seq<char>),
    UnknownOption(Seq<char>),
    MissingTarget,
    HelpDisplayed,
    VersionDisplayed,
}

impl View for CliError {
    type V = CliErrorView;

    open spec fn view(&self) -> CliErrorView {
        match self {
            CliError::MissingValue(name) => CliErrorView::MissingValue(name@),
            CliError::InvalidLevel(text) => CliErrorView::InvalidLevel(text@),
            CliError::UnknownOption(arg) => CliErrorView::UnknownOption(arg@),
            CliError::MissingTarget => CliErrorView::MissingTarget,
            CliError::HelpDisplayed => CliErrorView::HelpDisplayed,
            CliError::VersionDisplayed => CliErrorView::VersionDisplayed,
        }
    }
}

/// The request before any argument is read: no target, the default level,
/// nothing extra.
pub open spec fn empty_request() -> CliView {
    CliView {
        target_binary: None,
        compression_level: DEFAULT_LEVEL,
        extra_libs: Seq::empty(),
        extra_bins: Seq::empty(),
        additional_files: Seq::empty(),
    }
}

/// The request `acc` after the option `flag` was given the value `value`.
/// A target or a level replaces the earlier one, the others add up.
pub open spec fn with_option(acc: CliView, flag: Flag, value: Seq<char>) -> Result<
    CliView,
    CliErrorView,
> {
    match flag {
        Flag::Target => Ok(CliView { target_binary: Some(value), ..acc }),
        Flag::Level => match spec_parse_level(value) {
            Some(level) => Ok(CliView { compression_level: level, ..acc }),
            None => Err(CliErrorView::InvalidLevel(value)),
        },
        Flag::Lib => Ok(CliView { extra_libs: acc.extra_libs.push(value), ..acc }),
        Flag::Bin => Ok(CliView { extra_bins: acc.extra_bins.push(value), ..acc }),
        Flag::File => Ok(CliView { additional_files: acc.additional_files.push(value), ..acc }),
        Flag::Help => Err(CliErrorView::HelpDisplayed),
        Flag::Version => Err(CliErrorView::VersionDisplayed),
    }
}

/// What the arguments from position `at` on make of the request `acc`.
/// Arguments are read left to right, each option with the value that follows
/// it; the first argument that is no option, the first option without a
/// value and the first bad level end the reading, and so do `--help` and
/// `--version`.
pub open spec fn parse_from(args: Seq<Seq<char>>, at: int, acc: CliView) -> Result<
    CliView,
    CliErrorView,
>
    decreases args.len() - at,
{
    if at < 0 || at >= args.len() {
        Ok(acc)
    } else {
        match spec_flag_of(args[at]) {
            None => Err(CliErrorView::UnknownOption(args[at])),
            Some(Flag::Help) => Err(CliErrorView::HelpDisplayed),
            Some(Flag::Version) => Err(CliErrorView::VersionDisplayed),
            Some(flag) => if at + 1 >= args.len() {
                Err(CliErrorView::MissingValue(spec_flag_name(flag)))
            } else {
                match with_option(acc, flag, args[at + 1]) {
                    Ok(next) => parse_from(args, at + 2, next),
                    Err(e) => Err(e),
                }
            },
        }
    }
}

/// What a command line asks for. The first argument is the program's own
/// name and is not read.
pub open spec fn spec_parse(args: Seq<Seq<char>>) -> Result<CliView, CliErrorView> {
    parse_from(args, 1, empty_request())
}

/// The mathematical content of a parser's answer.
pub open spec fn answer_view(r: Result<Cli, CliError>) -> Result<CliView, CliErrorView> {
    match r {
        Ok(cli) => Ok(cli@),
        Err(e) => Err(e@),
    }
}

impl Cli {
    /// The value of the option `name`, which stands at position `at`.
    pub fn expect_value(args: &Vec<String>, at: usize, name: &str) -> (r: Result<String, CliError>)
        ensures
            at < args@.len() ==> (r matches Ok(value) && value@ == args@[at as int]@),
            at >= args@.len() ==> (r matches Err(CliError::MissingValue(n)) && n@ == name@),
    {
        if at < args.len() {
            Ok(args[at].clone())
        } else {
            Err(CliError::MissingValue(String::from_str(name)))
        }
    }

    /// The path that is the value of the option `name`, which stands at
    /// position `at`.
    pub fn expect_path(args: &Vec<String>, at: usize, name: &str) -> (r: Result<String, CliError>)
        ensures
            at < args@.len() ==> (r matches Ok(path) && path@ == args@[at as int]@),
            at >= args@.len() ==> (r matches Err(CliError::MissingValue(n)) && n@ == name@),
    {
        Self::expect_value(args, at, name)
    }

    /// Reads the command line of the generator.
    pub fn parse(args: &Vec<String>) -> (r: Result<Cli, CliError>)
        ensures
            answer_view(r) == spec_parse(texts(args@)),
    {
        let mut cli = Cli {
            target_binary: None,
            compression_level: DEFAULT_LEVEL,
            extra_libs: Vec::new(),
            extra_bins: Vec::new(),
            additional_files: Vec::new(),
        };
        assert(cli@.extra_libs =~= Seq::empty());
        assert(cli@.extra_bins =~= Seq::empty());
        assert(cli@.additional_files =~= Seq::empty());
        let mut i: usize = 1;
        while i < args.len()
            invariant
                1 <= i,
                parse_from(texts(args@), i as int, cli@) == spec_parse(texts(args@)),
            decreases args@.len() - i,
        {
            let flag: Flag = match flag_of(args[i].as_str()) {
                Some(flag) => flag,
                None => {
                    return Err(CliError::UnknownOption(args[i].clone()));
                },
            };
            match flag {
                Flag::Help => {
                    return Err(CliError::HelpDisplayed);
                },
                Flag::Version => {
                    return Err(CliError::VersionDisplayed);
                },
                _ => {},
            }
            if i + 1 >= args.len() {
                return Err(CliError::MissingValue(flag_name(flag)));
            }
            let name: String = flag_name(flag);
            let value: String = match Self::expect_value(args, i + 1, name.as_str()) {
                Ok(value) => value,
                Err(e) => {
                    return Err(e);
                },
            };
            let ghost before = cli@;
            match flag {
                Flag::Target => {
                    cli.target_binary = Some(value);
                },
                Flag::Level => match parse_level(value.as_str()) {
                    Some(level) => {
                        cli.compression_level = level;
                    },
                    None => {
                        return Err(CliError::InvalidLevel(value));
                    },
                },
                Flag::Lib => {
                    proof {
                        texts_push(cli.extra_libs@, value);
                    }
                    cli.extra_libs.push(value);
                },
                Flag::Bin => {
                    proof {
                        texts_push(cli.extra_bins@, value);
                    }
                    cli.extra_bins.push(value);
                },
                Flag::File => {
                    proof {
                        texts_push(cli.additional_files@, value);
                    }
                    cli.additional_files.push(value);
                },
                _ => {},
            }
            assert(with_option(before, flag, texts(args@)[i + 1]) == Ok::<CliView, CliErrorView>(cli@));
            i += 2;
        }
        Ok(cli)
    }
}

/// What the process does once it has looked at its own image.
#[derive(Debug)]
pub enum MainStep {
    /// The image is a bundle: run it.
    RunBundle,
    /// Print the generator's help text and end with code 0.
    ShowHelp,
    /// Print the version and end with code 0.
    ShowVersion,
    /// Generate the bundle that these arguments describe.
    Generate(BundleArgs),
}

/// The mathematical content of a `MainStep`.
pub enum MainStepView {
    RunBundle,
    ShowHelp,
    ShowVersion,
    Generate(BundleArgsView),
}

impl View for MainStep {
    type V = MainStepView;

    open spec fn view(&self) -> MainStepView {
        match self {
            MainStep::RunBundle => MainStepView::RunBundle,
            MainStep::ShowHelp => MainStepView::ShowHelp,
            MainStep::ShowVersion => MainStepView::ShowVersion,
            MainStep::Generate(args) => MainStepView::Generate(args@),
        }
    }
}

/// What a process does that holds a payload or not and was started with
/// `args`. A bundle runs whatever its arguments. The generator shows its help
/// when it is given no argument or asked for it, its version when asked for
/// it, and otherwise generates what the command line describes, which must
/// name a target.
pub open spec fn spec_main_step(bundled: bool, args: Seq<Seq<char>>) -> Result<
    MainStepView,
    CliErrorView,
> {
    if bundled {
        Ok(MainStepView::RunBundle)
    } else if args.len() <= 1 {
        Ok(MainStepView::ShowHelp)
    } else {
        match spec_parse(args) {
            Err(CliErrorView::HelpDisplayed) => Ok(MainStepView::ShowHelp),
            Err(CliErrorView::VersionDisplayed) => Ok(MainStepView::ShowVersion),
            Err(e) => Err(e),
            Ok(cli) => match cli.target_binary {
                None => Err(CliErrorView::MissingTarget),
                Some(target) => Ok(
                    MainStepView::Generate(
                        BundleArgsView {
                            target_binary: target,
                            compression_level: cli.compression_level,
                            extra_libs: cli.extra_libs,
                            additional_files: cli.additional_files,
                            extra_bins: cli.extra_bins,
                        },
                    ),
                ),
            },
        }
    }
}

/// The mathematical content of an answer of `rex_main`.
pub open spec fn step_view(r: Result<MainStep, CliError>) -> Result<MainStepView, CliErrorView> {
    match r {
        Ok(step) => Ok(step@),
        Err(e) => Err(e@),
    }
}

/// Decides between the two roles of the executable.
pub fn rex_main(runtime: &Runtime, args: &Vec<String>) -> (r: Result<MainStep, CliError>)
    ensures
        step_view(r) == spec_main_step(runtime.payload() is Some, texts(args@)),
{
    if runtime.is_bundled() {
        return Ok(MainStep::RunBundle);
    }
    if args.len() <= 1 {
        return Ok(MainStep::ShowHelp);
    }
    match Cli::parse(args) {
        Err(CliError::HelpDisplayed) => Ok(MainStep::ShowHelp),
        Err(CliError::VersionDisplayed) => Ok(MainStep::ShowVersion),
        Err(e) => Err(e),
        Ok(cli) => {
            let Cli { target_binary, compression_level, extra_libs, extra_bins, additional_files } =
                cli;
            match target_binary {
                None => Err(CliError::MissingTarget),
                Some(target) => Ok(
                    MainStep::Generate(
                        BundleArgs {
                            target_binary: target,
                            compression_level,
                            extra_libs,
                            additional_files,
                            extra_bins,
                        },
                    ),
                ),
            }
        },
    }
}

} // verus!
