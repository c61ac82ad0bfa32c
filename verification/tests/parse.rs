use rargsxd::{Arg, ArgParser, Form, ParseExit, WordType};

fn tokens(list: &[&str]) -> Vec<String> {
    list.iter().map(|s| s.to_string()).collect()
}

#[test]
fn parse_dash() {
    let args = vec!("--testflag".to_string(),
        "-o".to_string(), "monke".to_string(),
        "-fa".to_string(), "option".to_string(),
    );

    let mut parser = ArgParser::new("program_lol");
    let outcome = parser.args(
            vec!(
                Arg::new("testflag")
                    .flag(false),

                Arg::new("testoption")
                    .short('o')
                    .option("option"),

                Arg::new("combinedtestflag")
                    .short('f')
                    .flag(false),

                Arg::new("combinedtestoption")
                    .short('a')
                    .option("monke"),
            )
        ).parse_vec(args);

    assert!(outcome.is_ok());
    assert!(parser.get_flag("testflag").unwrap());
    assert_eq!(parser.get_option("testoption").unwrap(), "monke");

    assert!(parser.get_flag("combinedtestflag").unwrap());
    assert_eq!(parser.get_option("combinedtestoption").unwrap(), "option");
}

#[test]
fn parse_word() {
    let args = vec!(
        "testword".to_string(),
        "anothertestword".to_string(),
        "wordargument".to_string(),
    );

    let mut parser = ArgParser::new("program_lol");
    let outcome = parser.args(
            vec!(
                Arg::new("testword")
                    .word(WordType::Boolean(false)),

                Arg::new("anothertestword")
                    .word(WordType::string("")),
            )
        ).parse_vec(args);

    assert!(outcome.is_ok());
    assert!(parser.get_word("testword").unwrap().as_bool().unwrap());
    assert_eq!(parser.get_word("anothertestword").unwrap().as_string().unwrap(), "wordargument");
}

#[test]
fn extra() {
    let args = vec!(
        "--monke".to_string(),
        "oo oo".to_string(),
        "extra".to_string(),
    );
    let mut parser = ArgParser::new("program_lol");
    let outcome = parser.args(
            vec!(
                Arg::new("monke")
                    .option(""),
            )
        ).parse_vec(args);

    assert_eq!(parser.get_option("monke").unwrap(), "oo oo");
    assert!(outcome.is_ok());
    assert_eq!(parser.get_option("extra"), None);
    assert_eq!(parser.get_flag("extra"), None);
    assert_eq!(parser.get_word("extra"), None);
}

#[test]
fn doc_example() {
    let args = tokens(&["testword", "--testflag", "-o", "monke"]);
    let mut parser = ArgParser::new("program_lol");
    let outcome = parser
        .author("BubbyRoosh")
        .version("0.1.0")
        .copyright("Copyright (C) 2021 BubbyRoosh")
        .info("Example for simple arg parsing crate OwO")
        .require_args(true)
        .args(vec![
            Arg::new("testflag").short('t').help("This is a test flag.").flag(false),
            Arg::new("testoption").short('o').help("This is a test option.").option("option"),
            Arg::new("testword").help("This is a test word.").word(WordType::Boolean(false)),
        ])
        .parse_vec(args);

    assert_eq!(outcome, Ok(()));
    assert!(parser.get_flag("testflag").unwrap());
    assert!(parser.get_word("testword").unwrap().as_bool().unwrap());
    assert_eq!(parser.get_option("testoption").unwrap(), "monke");
}

#[test]
fn empty_input_with_required_args_fails() {
    let mut parser = ArgParser::new("prog");
    parser.require_args(true);
    let outcome = parser.parse_vec(Vec::new());
    assert_eq!(outcome, Err(ParseExit::NoArguments));

    let report = parser.report(&ParseExit::NoArguments);
    assert_eq!(report.status, 1);
    assert_eq!(report.out, parser.help_text());
    assert_eq!(report.err, "");
}

#[test]
fn empty_input_without_required_args_is_fine() {
    let mut parser = ArgParser::new("prog");
    assert_eq!(parser.parse_vec(Vec::new()), Ok(()));
    assert_eq!(parser.get_flag("help"), Some(false));
    assert_eq!(parser.get_flag("version"), Some(false));
}

#[test]
fn long_help_leaves_with_status_zero() {
    let mut parser = ArgParser::new("prog");
    let outcome = parser.parse_vec(tokens(&["--help"]));
    assert_eq!(outcome, Err(ParseExit::Help(Form::Long)));

    let report = parser.report(&ParseExit::Help(Form::Long));
    assert_eq!(report.status, 0);
    assert_eq!(report.out, parser.help_text());
    assert_eq!(report.err, "");
}

#[test]
fn long_help_wins_over_any_registry() {
    let mut parser = ArgParser::new("prog");
    let outcome = parser
        .args(vec![
            Arg::new("help").option("x"),
            Arg::new("other").required(true).flag(false),
        ])
        .parse_vec(tokens(&["--help", "value"]));
    assert_eq!(outcome, Err(ParseExit::Help(Form::Long)));
    assert_eq!(parser.get_option("help").unwrap(), "x");
}

#[test]
fn short_help_leaves_with_status_one() {
    let mut parser = ArgParser::new("prog");
    let outcome = parser.parse_vec(tokens(&["-h"]));
    assert_eq!(outcome, Err(ParseExit::Help(Form::Short)));
    assert_eq!(parser.report(&ParseExit::Help(Form::Short)).status, 1);
    assert_eq!(ParseExit::Help(Form::Short).status(), 1);
}

#[test]
fn long_version_prints_name_and_version() {
    let mut parser = ArgParser::new("prog");
    parser.version("1.2.3");
    let outcome = parser.parse_vec(tokens(&["--version"]));
    assert_eq!(outcome, Err(ParseExit::Version(Form::Long)));

    let report = parser.report(&ParseExit::Version(Form::Long));
    assert_eq!(report.status, 0);
    assert_eq!(report.out, "prog 1.2.3\n");
    assert_eq!(report.err, "");
}

#[test]
fn short_version_leaves_with_status_one() {
    let mut parser = ArgParser::new("prog");
    parser.version("1.2.3");
    let outcome = parser.parse_vec(tokens(&["-v"]));
    assert_eq!(outcome, Err(ParseExit::Version(Form::Short)));

    let report = parser.report(&ParseExit::Version(Form::Short));
    assert_eq!(report.status, 1);
    assert_eq!(report.out, "prog 1.2.3\n");
}

#[test]
fn required_flag_missing_is_reported() {
    let mut parser = ArgParser::new("prog");
    let outcome = parser
        .args(vec![Arg::new("required").flag(false).required(true)])
        .parse_vec(Vec::new());
    assert_eq!(outcome, Err(ParseExit::Missing("required".to_string())));
    assert_eq!(parser.get_flag("required"), Some(false));

    let mut parser = ArgParser::new("prog");
    let outcome = parser
        .args(vec![Arg::new("required").flag(false).required(true)])
        .parse_vec(tokens(&["stray"]));
    assert_eq!(outcome, Err(ParseExit::Missing("required".to_string())));

    let report = parser.report(&ParseExit::Missing("required".to_string()));
    assert_eq!(report.status, 1);
    assert!(report.out.contains("required"));
    assert!(report.out.starts_with("Didn't find \"required\"\n\n"));
    assert!(report.out.ends_with(parser.help_text().as_str()));
    assert_eq!(report.err, "");
}

#[test]
fn required_flag_present_is_accepted() {
    let mut parser = ArgParser::new("prog");
    let outcome = parser
        .args(vec![Arg::new("required").flag(false).required(true)])
        .parse_vec(tokens(&["--required"]));
    assert_eq!(outcome, Ok(()));
    assert_eq!(parser.get_flag("required"), Some(true));
}

#[test]
fn first_registered_missing_argument_is_named() {
    let mut parser = ArgParser::new("prog");
    let outcome = parser
        .args(vec![
            Arg::new("alpha").flag(false).required(true),
            Arg::new("beta").option("").required(true),
        ])
        .parse_vec(tokens(&["x"]));
    assert_eq!(outcome, Err(ParseExit::Missing("alpha".to_string())));

    let mut parser = ArgParser::new("prog");
    let outcome = parser
        .args(vec![
            Arg::new("alpha").flag(false).required(true),
            Arg::new("beta").option("").required(true),
        ])
        .parse_vec(tokens(&["--alpha"]));
    assert_eq!(outcome, Err(ParseExit::Missing("beta".to_string())));
}

#[test]
fn required_option_without_value_is_missing() {
    let mut parser = ArgParser::new("prog");
    let outcome = parser
        .args(vec![Arg::new("out").option("d").required(true)])
        .parse_vec(tokens(&["--out"]));
    assert_eq!(outcome, Err(ParseExit::Missing("out".to_string())));
    assert_eq!(parser.get_option("out").unwrap(), "d");
}

#[test]
fn unknown_long_is_unexpected() {
    let mut parser = ArgParser::new("prog");
    let outcome = parser.parse_vec(tokens(&["--notregistered"]));
    assert_eq!(outcome, Err(ParseExit::Unexpected("--notregistered".to_string())));

    let report = parser.report(&ParseExit::Unexpected("--notregistered".to_string()));
    assert_eq!(report.status, 1);
    assert_eq!(report.err, "Unexpected argument: \"--notregistered\"\n");
    assert_eq!(report.out, parser.help_text());
}

#[test]
fn unknown_long_after_other_tokens_is_unexpected() {
    let mut parser = ArgParser::new("prog");
    let outcome = parser
        .args(vec![Arg::new("keep").flag(false), Arg::new("out").short('o').option("d")])
        .parse_vec(tokens(&["--keep", "word", "--notregistered", "--keep"]));
    assert_eq!(outcome, Err(ParseExit::Unexpected("--notregistered".to_string())));
    assert_eq!(parser.get_flag("keep"), Some(true));
}

#[test]
fn two_dashes_alone_are_unexpected() {
    let mut parser = ArgParser::new("prog");
    let outcome = parser.parse_vec(tokens(&["--"]));
    assert_eq!(outcome, Err(ParseExit::Unexpected("--".to_string())));
}

#[test]
fn one_dash_alone_is_passed_over() {
    let mut parser = ArgParser::new("prog");
    let outcome = parser.parse_vec(tokens(&["-", "plain", ""]));
    assert_eq!(outcome, Ok(()));
}

#[test]
fn unknown_short_is_passed_over() {
    let mut parser = ArgParser::new("prog");
    let outcome = parser
        .args(vec![Arg::new("force").flag(false)])
        .parse_vec(tokens(&["-xfz"]));
    assert_eq!(outcome, Ok(()));
    assert_eq!(parser.get_flag("force"), Some(true));
}

#[test]
fn short_option_before_a_dash_is_unexpected() {
    let mut parser = ArgParser::new("prog");
    let outcome = parser
        .args(vec![Arg::new("out").option("d"), Arg::new("force").flag(false)])
        .parse_vec(tokens(&["-fo", "-f"]));
    assert_eq!(outcome, Err(ParseExit::Unexpected("-f".to_string())));
    assert_eq!(parser.get_option("out").unwrap(), "d");
    assert_eq!(parser.get_flag("force"), Some(true));

    let report = parser.report(&ParseExit::Unexpected("-f".to_string()));
    assert_eq!(report.err, "Unexpected argument: \"-f\"\n");
    assert_eq!(report.status, 1);
}

#[test]
fn long_option_before_a_dash_keeps_its_default() {
    let mut parser = ArgParser::new("prog");
    let outcome = parser
        .args(vec![Arg::new("out").option("d"), Arg::new("force").flag(false)])
        .parse_vec(tokens(&["--out", "-f"]));
    assert_eq!(outcome, Ok(()));
    assert_eq!(parser.get_option("out").unwrap(), "d");
    assert_eq!(parser.get_flag("force"), Some(true));
}

#[test]
fn short_option_at_the_end_keeps_its_default() {
    let mut parser = ArgParser::new("prog");
    let outcome = parser
        .args(vec![Arg::new("out").option("d")])
        .parse_vec(tokens(&["-o"]));
    assert_eq!(outcome, Ok(()));
    assert_eq!(parser.get_option("out").unwrap(), "d");
}

#[test]
fn options_sharing_a_short_name_take_the_same_value() {
    let mut parser = ArgParser::new("prog");
    let outcome = parser
        .args(vec![Arg::new("out").option("a"), Arg::new("only").option("b")])
        .parse_vec(tokens(&["-o", "value"]));
    assert_eq!(outcome, Ok(()));
    assert_eq!(parser.get_option("out").unwrap(), "value");
    assert_eq!(parser.get_option("only").unwrap(), "value");
}

#[test]
fn options_in_a_cluster_take_the_same_value() {
    let mut parser = ArgParser::new("prog");
    let outcome = parser
        .args(vec![Arg::new("alpha").option(""), Arg::new("beta").option("")])
        .parse_vec(tokens(&["-ab", "shared"]));
    assert_eq!(outcome, Ok(()));
    assert_eq!(parser.get_option("alpha").unwrap(), "shared");
    assert_eq!(parser.get_option("beta").unwrap(), "shared");
}

#[test]
fn help_inside_a_cluster_stops_after_earlier_flags() {
    let mut parser = ArgParser::new("prog");
    let outcome = parser
        .args(vec![Arg::new("force").flag(false), Arg::new("quiet").flag(false)])
        .parse_vec(tokens(&["-fhq"]));
    assert_eq!(outcome, Err(ParseExit::Help(Form::Short)));
    assert_eq!(parser.get_flag("force"), Some(true));
    assert_eq!(parser.get_flag("quiet"), Some(false));
}

#[test]
fn bare_name_of_a_flag_is_passed_over() {
    let mut parser = ArgParser::new("prog");
    let outcome = parser
        .args(vec![Arg::new("force").flag(false)])
        .parse_vec(tokens(&["force", "help", "version"]));
    assert_eq!(outcome, Ok(()));
    assert_eq!(parser.get_flag("force"), Some(false));
}

#[test]
fn word_with_dashes_in_its_name_is_matched_first() {
    let mut parser = ArgParser::new("prog");
    let outcome = parser
        .args(vec![
            Arg::new("--go").word(WordType::Boolean(false)),
            Arg::new("-x").word(WordType::string("")),
        ])
        .parse_vec(tokens(&["--go", "-x", "value"]));
    assert_eq!(outcome, Ok(()));
    assert_eq!(parser.get_word("--go").unwrap().as_bool(), Some(true));
    assert_eq!(parser.get_word("-x").unwrap().as_string().unwrap(), "value");
}

#[test]
fn long_name_of_a_word_changes_nothing() {
    let mut parser = ArgParser::new("prog");
    let outcome = parser
        .args(vec![Arg::new("go").word(WordType::Boolean(false))])
        .parse_vec(tokens(&["--go", "-g"]));
    assert_eq!(outcome, Ok(()));
    assert_eq!(parser.get_word("go").unwrap().as_bool(), Some(false));
}

#[test]
fn string_word_before_a_dash_keeps_its_default() {
    let mut parser = ArgParser::new("prog");
    let outcome = parser
        .args(vec![Arg::new("set").word(WordType::string("d")), Arg::new("force").flag(false)])
        .parse_vec(tokens(&["set", "-f"]));
    assert_eq!(outcome, Ok(()));
    assert_eq!(parser.get_word("set").unwrap().as_string().unwrap(), "d");
    assert_eq!(parser.get_flag("force"), Some(true));
}

#[test]
fn value_token_is_seen_again_on_its_own() {
    let mut parser = ArgParser::new("prog");
    let outcome = parser
        .args(vec![
            Arg::new("out").option(""),
            Arg::new("commit").word(WordType::Boolean(false)),
        ])
        .parse_vec(tokens(&["--out", "commit"]));
    assert_eq!(outcome, Ok(()));
    assert_eq!(parser.get_option("out").unwrap(), "commit");
    assert_eq!(parser.get_word("commit").unwrap().as_bool(), Some(true));
}

#[test]
fn registering_a_name_again_replaces_the_declaration() {
    let mut parser = ArgParser::new("prog");
    parser.args(vec![Arg::new("mode").flag(true)]);
    assert_eq!(parser.get_flag("mode"), Some(true));
    parser.args(vec![Arg::new("mode").option("fast"), Arg::new("mode").option("slow")]);
    assert_eq!(parser.get_flag("mode"), None);
    assert_eq!(parser.get_option("mode").unwrap(), "slow");
    assert_eq!(parser.help_text().matches("--mode").count(), 1);
}

#[test]
fn parsing_twice_goes_on_from_the_values_held() {
    let mut parser = ArgParser::new("prog");
    parser.args(vec![Arg::new("force").flag(false)]);
    assert_eq!(parser.parse_vec(tokens(&["-f"])), Ok(()));
    assert_eq!(parser.get_flag("force"), Some(true));
    assert_eq!(parser.parse_vec(tokens(&["-f"])), Ok(()));
    assert_eq!(parser.get_flag("force"), Some(false));
}

#[test]
fn help_and_version_in_one_cluster_stop_at_the_first() {
    let mut parser = ArgParser::new("prog");
    assert_eq!(parser.parse_vec(tokens(&["-hv"])), Err(ParseExit::Help(Form::Short)));
    let mut parser = ArgParser::new("prog");
    assert_eq!(parser.parse_vec(tokens(&["-vh"])), Err(ParseExit::Version(Form::Short)));
    let mut parser = ArgParser::new("prog");
    assert_eq!(parser.parse_vec(tokens(&["-xh"])), Err(ParseExit::Help(Form::Short)));
}

#[test]
fn help_after_an_error_is_not_reached() {
    let mut parser = ArgParser::new("prog");
    assert_eq!(
        parser.parse_vec(tokens(&["--nope", "--help"])),
        Err(ParseExit::Unexpected("--nope".to_string()))
    );
    let mut parser = ArgParser::new("prog");
    assert_eq!(
        parser.parse_vec(tokens(&["--help", "--nope"])),
        Err(ParseExit::Help(Form::Long))
    );
}
