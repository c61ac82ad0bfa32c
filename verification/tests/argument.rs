use rargsxd::{Arg, ArgType, WordType};

#[test]
fn new_argument_has_the_first_character_as_short_name() {
    let arg = Arg::new("verbose");
    assert_eq!(arg.get_name(), "verbose");
    assert_eq!(arg.get_short(), 'v');
    assert_eq!(arg.get_help(), "");
    assert_eq!(*arg.get_type(), ArgType::Unknown);
    assert!(!arg.is_required());
    assert!(!arg.is_set());
}

#[test]
fn new_argument_takes_a_whole_character() {
    let arg = Arg::new("über");
    assert_eq!(arg.get_short(), 'ü');
    assert_eq!(arg.get_name(), "über");
}

#[test]
fn builders_change_one_thing_each() {
    let mut arg = Arg::new("out");
    arg.flag(true);
    assert_eq!(*arg.get_type(), ArgType::Flag(true));
    arg.option("file");
    assert_eq!(*arg.get_type(), ArgType::Option_("file".to_string()));
    arg.word(WordType::Boolean(true));
    assert_eq!(*arg.get_type(), ArgType::Word(WordType::Boolean(true)));
    arg.word(WordType::string("w"));
    assert_eq!(*arg.get_type(), ArgType::Word(WordType::String_("w".to_string())));
    arg.help("Where to write");
    assert_eq!(arg.get_help(), "Where to write");
    arg.short('O');
    assert_eq!(arg.get_short(), 'O');
    arg.required(true);
    assert!(arg.is_required());
    arg.required(false);
    assert!(!arg.is_required());
    assert_eq!(arg.get_name(), "out");
    assert!(!arg.is_set());
}

#[test]
fn builders_chain() {
    let mut arg = Arg::new("level");
    arg.short('n').help("How much").required(true).option("1");
    assert_eq!(arg.get_short(), 'n');
    assert_eq!(arg.get_help(), "How much");
    assert!(arg.is_required());
    assert_eq!(*arg.get_type(), ArgType::option("1"));
}

#[test]
fn copy_of_an_argument_holds_the_same() {
    let mut arg = Arg::new("level");
    arg.short('n').help("How much").required(true).option("1");
    let copy = arg.clone();
    assert_eq!(copy.get_name(), "level");
    assert_eq!(copy.get_short(), 'n');
    assert_eq!(copy.get_help(), "How much");
    assert_eq!(copy.get_type(), arg.get_type());
    assert!(copy.is_required());
    assert!(!copy.is_set());
}

#[test]
fn word_values() {
    assert_eq!(WordType::boolean(true), WordType::Boolean(true));
    assert_eq!(WordType::boolean(false), WordType::Boolean(false));
    assert_eq!(WordType::string("text"), WordType::String_("text".to_string()));
    assert_eq!(WordType::boolean(true).as_bool(), Some(true));
    assert_eq!(WordType::boolean(true).as_string(), None);
    assert_eq!(WordType::string("text").as_bool(), None);
    assert_eq!(WordType::string("text").as_string(), Some("text".to_string()));
    assert_eq!(WordType::string("").as_string(), Some(String::new()));
}

#[test]
fn word_values_compare_by_what_they_hold() {
    assert_ne!(WordType::Boolean(true), WordType::Boolean(false));
    assert_ne!(WordType::string("a"), WordType::string("b"));
    assert_ne!(WordType::string("true"), WordType::Boolean(true));
    let value = WordType::string("a");
    assert_eq!(value.clone(), value);
}

#[test]
fn kinds() {
    assert_eq!(ArgType::flag(true), ArgType::Flag(true));
    assert_eq!(ArgType::option("o"), ArgType::Option_("o".to_string()));
    assert_eq!(
        ArgType::word(WordType::boolean(false)),
        ArgType::Word(WordType::Boolean(false))
    );
}

#[test]
fn kinds_compare_by_what_they_hold() {
    assert_eq!(ArgType::Unknown, ArgType::Unknown);
    assert_ne!(ArgType::Unknown, ArgType::Flag(false));
    assert_ne!(ArgType::Flag(true), ArgType::Flag(false));
    assert_ne!(ArgType::option("a"), ArgType::option("b"));
    assert_ne!(ArgType::option("a"), ArgType::word(WordType::string("a")));
    let kind = ArgType::word(WordType::string("a"));
    assert_eq!(kind.clone(), kind);
}
