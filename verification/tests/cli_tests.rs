use rex::cli::{flag_name, flag_of, parse_level, rex_main, Cli, CliError, Flag, MainStep};
use rex::format::assemble_bundle;
use rex::runtime::Runtime;

fn argv(items: &[&str]) -> Vec<String> {
    items.iter().map(|s| s.to_string()).collect()
}

fn tool() -> Runtime {
    Runtime::new(&[0u8; 64], 64).unwrap()
}

fn bundle() -> Runtime {
    let image = assemble_bundle(b"host", b"payload", "hello").unwrap();
    Runtime::new(&image, image.len() as u64).unwrap()
}

#[test]
fn flags_have_a_short_and_a_long_spelling() {
    assert_eq!(flag_of("-t"), Some(Flag::Target));
    assert_eq!(flag_of("--target-binary"), Some(Flag::Target));
    assert_eq!(flag_of("-L"), Some(Flag::Level));
    assert_eq!(flag_of("--compression-level"), Some(Flag::Level));
    assert_eq!(flag_of("-l"), Some(Flag::Lib));
    assert_eq!(flag_of("--extra-libs"), Some(Flag::Lib));
    assert_eq!(flag_of("-b"), Some(Flag::Bin));
    assert_eq!(flag_of("--extra-bins"), Some(Flag::Bin));
    assert_eq!(flag_of("-a"), Some(Flag::File));
    assert_eq!(flag_of("--additional-files"), Some(Flag::File));
    assert_eq!(flag_of("-h"), Some(Flag::Help));
    assert_eq!(flag_of("--help"), Some(Flag::Help));
    assert_eq!(flag_of("-v"), Some(Flag::Version));
    assert_eq!(flag_of("--version"), Some(Flag::Version));
}

#[test]
fn other_arguments_are_no_flags() {
    assert_eq!(flag_of(""), None);
    assert_eq!(flag_of("-x"), None);
    assert_eq!(flag_of("-T"), None);
    assert_eq!(flag_of("--target"), None);
    assert_eq!(flag_of("target-binary"), None);
    assert_eq!(flag_of("--rex-help"), None);
}

#[test]
fn flag_names_are_the_long_spellings() {
    assert_eq!(flag_name(Flag::Target), "--target-binary");
    assert_eq!(flag_name(Flag::Level), "--compression-level");
    assert_eq!(flag_name(Flag::Lib), "--extra-libs");
    assert_eq!(flag_name(Flag::Bin), "--extra-bins");
    assert_eq!(flag_name(Flag::File), "--additional-files");
    assert_eq!(flag_name(Flag::Help), "--help");
    assert_eq!(flag_name(Flag::Version), "--version");
}

#[test]
fn levels_are_read_as_decimal_numbers() {
    assert_eq!(parse_level("1"), Some(1));
    assert_eq!(parse_level("5"), Some(5));
    assert_eq!(parse_level("19"), Some(19));
    assert_eq!(parse_level("22"), Some(22));
    assert_eq!(parse_level("07"), Some(7));
    assert_eq!(parse_level("0000022"), Some(22));
}

#[test]
fn level_may_carry_a_plus_sign() {
    assert_eq!(parse_level("+5"), Some(5));
    assert_eq!(parse_level("+22"), Some(22));
    assert_eq!(parse_level("+007"), Some(7));
    assert_eq!(parse_level("+"), None);
    assert_eq!(parse_level("++5"), None);
    assert_eq!(parse_level("+-5"), None);
    assert_eq!(parse_level("5+"), None);
    assert_eq!(parse_level("+0"), None);
    assert_eq!(parse_level("+23"), None);
}

#[test]
fn levels_agree_with_std_on_the_valid_range() {
    for text in ["1", "+1", "22", "+22", "0", "23", "-1", "-0", "+", "-", "", "1_0", "0x5", "٥", "12a"] {
        let expected = text.parse::<i32>().ok().filter(|l| (1..=22).contains(l));
        assert_eq!(parse_level(text), expected, "level {:?}", text);
    }
}

#[test]
fn levels_outside_the_range_are_refused() {
    assert_eq!(parse_level("0"), None);
    assert_eq!(parse_level("23"), None);
    assert_eq!(parse_level("100"), None);
    assert_eq!(parse_level("230"), None);
    assert_eq!(parse_level("99999999999999999999999999999999"), None);
    assert_eq!(parse_level("4294967301"), None);
}

#[test]
fn texts_that_are_no_numbers_are_refused() {
    assert_eq!(parse_level(""), None);
    assert_eq!(parse_level("five"), None);
    assert_eq!(parse_level("-5"), None);
    assert_eq!(parse_level("5 "), None);
    assert_eq!(parse_level(" 5"), None);
    assert_eq!(parse_level("5.0"), None);
    assert_eq!(parse_level("1e1"), None);
    assert_eq!(parse_level("\u{664}"), None);
}

#[test]
fn empty_command_line_gives_the_defaults() {
    let cli = Cli::parse(&argv(&["rex"])).unwrap();
    assert_eq!(cli.target_binary, None);
    assert_eq!(cli.compression_level, 5);
    assert!(cli.extra_libs.is_empty());
    assert!(cli.extra_bins.is_empty());
    assert!(cli.additional_files.is_empty());
    let cli = Cli::parse(&argv(&[])).unwrap();
    assert_eq!(cli.target_binary, None);
}

#[test]
fn full_command_line_is_read() {
    let cli = Cli::parse(&argv(&[
        "rex", "-t", "/bin/ls", "-L", "19", "-l", "/lib/a.so", "--extra-libs", "/lib/b.so", "-b",
        "/usr/bin/env", "-a", "data", "--additional-files", "conf.d", "--extra-bins", "tools",
    ]))
    .unwrap();
    assert_eq!(cli.target_binary, Some(String::from("/bin/ls")));
    assert_eq!(cli.compression_level, 19);
    assert_eq!(cli.extra_libs, argv(&["/lib/a.so", "/lib/b.so"]));
    assert_eq!(cli.extra_bins, argv(&["/usr/bin/env", "tools"]));
    assert_eq!(cli.additional_files, argv(&["data", "conf.d"]));
}

#[test]
fn later_target_and_level_replace_earlier_ones() {
    let cli = Cli::parse(&argv(&[
        "rex", "--target-binary", "a", "--compression-level", "3", "-t", "b", "-L", "4",
    ]))
    .unwrap();
    assert_eq!(cli.target_binary, Some(String::from("b")));
    assert_eq!(cli.compression_level, 4);
}

#[test]
fn value_may_look_like_a_flag() {
    let cli = Cli::parse(&argv(&["rex", "-t", "-h"])).unwrap();
    assert_eq!(cli.target_binary, Some(String::from("-h")));
}

#[test]
fn unknown_option_is_refused() {
    match Cli::parse(&argv(&["rex", "-t", "x", "--frobnicate", "-h"])) {
        Err(CliError::UnknownOption(o)) => assert_eq!(o, "--frobnicate"),
        other => panic!("unexpected answer {:?}", other),
    }
    match Cli::parse(&argv(&["rex", "ls"])) {
        Err(CliError::UnknownOption(o)) => assert_eq!(o, "ls"),
        other => panic!("unexpected answer {:?}", other),
    }
}

#[test]
fn option_without_value_is_refused() {
    match Cli::parse(&argv(&["rex", "-t"])) {
        Err(CliError::MissingValue(n)) => assert_eq!(n, "--target-binary"),
        other => panic!("unexpected answer {:?}", other),
    }
    match Cli::parse(&argv(&["rex", "-t", "x", "-l"])) {
        Err(CliError::MissingValue(n)) => assert_eq!(n, "--extra-libs"),
        other => panic!("unexpected answer {:?}", other),
    }
    match Cli::parse(&argv(&["rex", "--compression-level"])) {
        Err(CliError::MissingValue(n)) => assert_eq!(n, "--compression-level"),
        other => panic!("unexpected answer {:?}", other),
    }
}

#[test]
fn bad_level_is_refused() {
    match Cli::parse(&argv(&["rex", "-t", "x", "-L", "23"])) {
        Err(CliError::InvalidLevel(t)) => assert_eq!(t, "23"),
        other => panic!("unexpected answer {:?}", other),
    }
    match Cli::parse(&argv(&["rex", "-L", "fast", "-t", "x"])) {
        Err(CliError::InvalidLevel(t)) => assert_eq!(t, "fast"),
        other => panic!("unexpected answer {:?}", other),
    }
}

#[test]
fn help_and_version_end_the_reading() {
    assert!(matches!(Cli::parse(&argv(&["rex", "-h"])), Err(CliError::HelpDisplayed)));
    assert!(matches!(Cli::parse(&argv(&["rex", "--help", "--bogus"])), Err(CliError::HelpDisplayed)));
    assert!(matches!(Cli::parse(&argv(&["rex", "-v"])), Err(CliError::VersionDisplayed)));
    assert!(matches!(
        Cli::parse(&argv(&["rex", "-t", "x", "--version"])),
        Err(CliError::VersionDisplayed)
    ));
    assert!(matches!(
        Cli::parse(&argv(&["rex", "--bogus", "--help"])),
        Err(CliError::UnknownOption(_))
    ));
}

#[test]
fn expect_value_reads_the_position() {
    let args = argv(&["rex", "-t", "/bin/ls"]);
    assert_eq!(Cli::expect_value(&args, 2, "--target-binary").unwrap(), "/bin/ls");
    assert_eq!(Cli::expect_value(&args, 0, "--target-binary").unwrap(), "rex");
    match Cli::expect_value(&args, 3, "--target-binary") {
        Err(CliError::MissingValue(n)) => assert_eq!(n, "--target-binary"),
        other => panic!("unexpected answer {:?}", other),
    }
}

#[test]
fn expect_path_reads_the_position() {
    let args = argv(&["rex", "-l", "/lib/x.so"]);
    assert_eq!(Cli::expect_path(&args, 2, "--extra-libs").unwrap(), "/lib/x.so");
    match Cli::expect_path(&args, 7, "--extra-libs") {
        Err(CliError::MissingValue(n)) => assert_eq!(n, "--extra-libs"),
        other => panic!("unexpected answer {:?}", other),
    }
}

#[test]
fn bundle_runs_whatever_its_arguments() {
    assert!(matches!(rex_main(&bundle(), &argv(&["./hello.Rex"])), Ok(MainStep::RunBundle)));
    assert!(matches!(rex_main(&bundle(), &argv(&["./hello.Rex", "-h"])), Ok(MainStep::RunBundle)));
    assert!(matches!(
        rex_main(&bundle(), &argv(&["./hello.Rex", "--bogus"])),
        Ok(MainStep::RunBundle)
    ));
}

#[test]
fn tool_without_arguments_shows_help() {
    assert!(matches!(rex_main(&tool(), &argv(&["rex"])), Ok(MainStep::ShowHelp)));
    assert!(matches!(rex_main(&tool(), &argv(&[])), Ok(MainStep::ShowHelp)));
}

#[test]
fn tool_shows_help_and_version_on_request() {
    assert!(matches!(rex_main(&tool(), &argv(&["rex", "--help"])), Ok(MainStep::ShowHelp)));
    assert!(matches!(rex_main(&tool(), &argv(&["rex", "-t", "x", "-h"])), Ok(MainStep::ShowHelp)));
    assert!(matches!(rex_main(&tool(), &argv(&["rex", "-v"])), Ok(MainStep::ShowVersion)));
}

#[test]
fn tool_generates_what_the_command_line_says() {
    let step = rex_main(&tool(), &argv(&["rex", "-t", "/bin/ls", "-l", "/lib/x.so", "-a", "f"]));
    match step {
        Ok(MainStep::Generate(args)) => {
            assert_eq!(args.target_binary, "/bin/ls");
            assert_eq!(args.compression_level, 5);
            assert_eq!(args.extra_libs, argv(&["/lib/x.so"]));
            assert_eq!(args.additional_files, argv(&["f"]));
            assert!(args.extra_bins.is_empty());
        }
        other => panic!("unexpected step {:?}", other),
    }
}

#[test]
fn tool_needs_a_target() {
    assert!(matches!(
        rex_main(&tool(), &argv(&["rex", "-L", "3"])),
        Err(CliError::MissingTarget)
    ));
}

#[test]
fn tool_passes_parse_errors_on() {
    assert!(matches!(
        rex_main(&tool(), &argv(&["rex", "--bogus"])),
        Err(CliError::UnknownOption(_))
    ));
    assert!(matches!(rex_main(&tool(), &argv(&["rex", "-t"])), Err(CliError::MissingValue(_))));
    assert!(matches!(
        rex_main(&tool(), &argv(&["rex", "-t", "x", "-L", "0"])),
        Err(CliError::InvalidLevel(_))
    ));
}
