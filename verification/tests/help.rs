use rargsxd::help::{
    compose, entry_line, head_text, missing_text, section_text, sections_text, unexpected_text,
    version_text,
};
use rargsxd::{Arg, ArgParser, Form, ParseExit, Section, WordType};

fn described() -> ArgParser {
    let mut parser = ArgParser::new("prog");
    parser
        .version("1.0")
        .author("me")
        .info("does things")
        .copyright("(c) me")
        .args(vec![
            Arg::new("testflag").help("A flag").flag(false),
            Arg::new("out").help("Where to").option("here"),
            Arg::new("commit").help("Do it").word(WordType::Boolean(false)),
            Arg::new("level").short('n').help("How much").option("1"),
        ]);
    parser
}

#[test]
fn help_text_of_a_fresh_parser() {
    let parser = ArgParser::new("prog");
    assert_eq!(
        parser.help_text(),
        "prog \n\n\n\n\nUsage:\n\tprog [flags] [options]\n\nFlags:\n\t-h, --help\tPrints the help dialog\n\t-v, --version\tPrints the version\n"
    );
}

#[test]
fn help_text_lists_each_kind_in_its_section() {
    let parser = described();
    let expected = "prog 1.0\nme\ndoes things\n(c) me\n\nUsage:\n\tprog [flags] [options]\n\n\
Flags:\n\t-h, --help\tPrints the help dialog\n\t-v, --version\tPrints the version\n\t-t, --testflag\tA flag\n\
Options:\n\t-o, --out\tWhere to\n\t-n, --level\tHow much\n\
Words:\n\tcommit\tDo it\n";
    assert_eq!(parser.help_text(), expected);
}

#[test]
fn help_text_follows_the_texts_set() {
    let mut parser = ArgParser::new("first");
    parser.name("second").usage("second <file>").version("9");
    assert!(parser.help_text().starts_with("second 9\n\n\n\n\nUsage:\n\tsecond <file>\n\n"));
    assert_eq!(parser.version_text(), "second 9\n");
}

#[test]
fn help_text_is_the_same_after_a_parse() {
    let mut parser = described();
    let before = parser.help_text();
    assert!(parser.parse_vec(vec!["--testflag".to_string(), "commit".to_string()]).is_ok());
    assert_eq!(parser.help_text(), before);
}

#[test]
fn usage_defaults_to_the_program_name() {
    let parser = ArgParser::new("tool");
    assert!(parser.help_text().contains("\nUsage:\n\ttool [flags] [options]\n"));
}

#[test]
fn entry_line_of_a_flag_names_both_spellings() {
    let mut arg = Arg::new("verbose");
    arg.help("Say more").flag(false);
    assert_eq!(entry_line(&arg, Section::Flags), "\t-v, --verbose\tSay more\n");
    assert_eq!(entry_line(&arg, Section::Options), "\t-v, --verbose\tSay more\n");
    arg.short('V');
    assert_eq!(entry_line(&arg, Section::Flags), "\t-V, --verbose\tSay more\n");
}

#[test]
fn entry_line_of_a_word_names_it_bare() {
    let mut arg = Arg::new("commit");
    arg.help("Do it").word(WordType::Boolean(false));
    assert_eq!(entry_line(&arg, Section::Words), "\tcommit\tDo it\n");
}

#[test]
fn section_without_entries_is_left_out() {
    let mut flag = Arg::new("force");
    flag.flag(false);
    let held = vec![flag];
    assert_eq!(section_text(&held, Section::Flags), "Flags:\n\t-f, --force\t\n");
    assert_eq!(section_text(&held, Section::Options), "");
    assert_eq!(section_text(&held, Section::Words), "");
    assert_eq!(sections_text(&held), "Flags:\n\t-f, --force\t\n");
    assert_eq!(sections_text(&Vec::new()), "");
}

#[test]
fn sections_come_in_order_of_kind_then_registration() {
    let mut word = Arg::new("zed");
    word.word(WordType::string(""));
    let mut option = Arg::new("out");
    option.option("");
    let mut late = Arg::new("alpha");
    late.flag(true);
    let mut early = Arg::new("beta");
    early.flag(true);
    let held = vec![word, option, early, late];
    assert_eq!(
        sections_text(&held),
        "Flags:\n\t-b, --beta\t\n\t-a, --alpha\t\nOptions:\n\t-o, --out\t\nWords:\n\tzed\t\n"
    );
}

#[test]
fn head_text_has_one_line_for_each_text() {
    assert_eq!(
        head_text("n", "v", "a", "i", "c", "u"),
        "n v\na\ni\nc\n\nUsage:\n\tu\n\n"
    );
}

#[test]
fn version_text_is_name_and_version() {
    assert_eq!(version_text("prog", "0.1.0"), "prog 0.1.0\n");
    assert_eq!(version_text("prog", ""), "prog \n");
}

#[test]
fn unexpected_text_quotes_the_token() {
    assert_eq!(unexpected_text("--nope"), "Unexpected argument: \"--nope\"\n");
}

#[test]
fn missing_text_quotes_the_name() {
    assert_eq!(missing_text("input"), "Didn't find \"input\"\n\n");
}

#[test]
fn report_for_each_reason() {
    let help = "HELP\n".to_string();
    let version = "prog 1\n".to_string();

    let r = compose(help.clone(), version.clone(), &ParseExit::NoArguments);
    assert_eq!((r.out.as_str(), r.err.as_str(), r.status), ("HELP\n", "", 1));

    let r = compose(help.clone(), version.clone(), &ParseExit::Help(Form::Long));
    assert_eq!((r.out.as_str(), r.err.as_str(), r.status), ("HELP\n", "", 0));

    let r = compose(help.clone(), version.clone(), &ParseExit::Help(Form::Short));
    assert_eq!((r.out.as_str(), r.err.as_str(), r.status), ("HELP\n", "", 1));

    let r = compose(help.clone(), version.clone(), &ParseExit::Version(Form::Long));
    assert_eq!((r.out.as_str(), r.err.as_str(), r.status), ("prog 1\n", "", 0));

    let r = compose(help.clone(), version.clone(), &ParseExit::Version(Form::Short));
    assert_eq!((r.out.as_str(), r.err.as_str(), r.status), ("prog 1\n", "", 1));

    let r = compose(help.clone(), version.clone(), &ParseExit::Unexpected("-x".to_string()));
    assert_eq!(
        (r.out.as_str(), r.err.as_str(), r.status),
        ("HELP\n", "Unexpected argument: \"-x\"\n", 1)
    );

    let r = compose(help, version, &ParseExit::Missing("in".to_string()));
    assert_eq!(
        (r.out.as_str(), r.err.as_str(), r.status),
        ("Didn't find \"in\"\n\nHELP\n", "", 1)
    );
}

#[test]
fn status_of_each_reason() {
    assert_eq!(ParseExit::NoArguments.status(), 1);
    assert_eq!(ParseExit::Help(Form::Long).status(), 0);
    assert_eq!(ParseExit::Help(Form::Short).status(), 1);
    assert_eq!(ParseExit::Version(Form::Long).status(), 0);
    assert_eq!(ParseExit::Version(Form::Short).status(), 1);
    assert_eq!(ParseExit::Unexpected(String::new()).status(), 1);
    assert_eq!(ParseExit::Missing(String::new()).status(), 1);
}

#[test]
fn reasons_compare_by_what_they_hold() {
    assert_eq!(ParseExit::Missing("a".to_string()), ParseExit::Missing("a".to_string()));
    assert_ne!(ParseExit::Missing("a".to_string()), ParseExit::Missing("b".to_string()));
    assert_ne!(ParseExit::Missing("a".to_string()), ParseExit::Unexpected("a".to_string()));
    assert_ne!(ParseExit::Help(Form::Long), ParseExit::Help(Form::Short));
    assert_ne!(ParseExit::Help(Form::Long), ParseExit::Version(Form::Long));
    let reason = ParseExit::Unexpected("--x".to_string());
    assert_eq!(reason.clone(), reason);
}
