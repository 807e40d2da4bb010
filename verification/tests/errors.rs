use conf::conf_context::ConfValueSource;
use conf::error::{InnerError, OwnedFlattenedOptionalDebugInfo};
use conf::error_render::{
    format_err_str, remove_trailing_dot, render_provided_opt, skip_short_not_found_message,
    ErrorKind, StyleCodes,
};
use conf::error_report::{compare_errors, compare_options, compare_str, report_errors, sort_errors};
use conf::program_option::{ParseType, ProgramOption};

fn opt(id: &str, parse_type: ParseType) -> ProgramOption {
    ProgramOption {
        id: id.to_string(),
        parse_type,
        description: None,
        short_form: None,
        long_form: None,
        aliases: vec![],
        env_form: None,
        env_aliases: vec![],
        default_value: None,
        default_help_str: None,
        is_required: true,
        allow_hyphen_values: false,
        secret: None,
        is_positional: false,
        has_serde_source: false,
    }
}

fn plain() -> StyleCodes {
    StyleCodes {
        on: String::new(),
        off: String::new(),
    }
}

fn body(e: &InnerError) -> String {
    let mut out = String::new();
    e.print_body(&mut out, &plain());
    out
}

#[test]
fn titles_and_kinds() {
    let o = opt("a", ParseType::Parameter);
    let e = InnerError::validation("S", "", "bad");
    assert_eq!(e.title(), "Validation failed");
    assert_eq!(e.error_kind(), ErrorKind::ValueValidation);
    assert!(e.get_program_option().is_none());
    let e = InnerError::invalid_value(ConfValueSource::Args, "x", &o, "nope");
    assert_eq!(e.title(), "Invalid value");
    assert_eq!(e.error_kind(), ErrorKind::InvalidValue);
    assert_eq!(e.get_program_option().unwrap().id, "a");
    let e = InnerError::invalid_utf8_env("A", &o, None);
    assert_eq!(e.title(), "An env var contained invalid UTF8");
    assert_eq!(e.error_kind(), ErrorKind::InvalidValue);
}

#[test]
fn invalid_value_body_shows_value_unless_secret() {
    let mut o = opt("port", ParseType::Parameter);
    o.long_form = Some("port".into());
    let e = InnerError::invalid_value(ConfValueSource::Args, "abc", &o, "invalid digit");
    assert_eq!(
        body(&e),
        "  when parsing '--port' value 'abc': invalid digit\n"
    );
    o.secret = Some(true);
    let e1 = InnerError::invalid_value(ConfValueSource::Env("PORT"), "abc", &o, "invalid digit");
    let e2 = InnerError::invalid_value(ConfValueSource::Env("PORT"), "xyz", &o, "invalid digit");
    assert_eq!(body(&e1), "  when parsing env 'PORT' value: invalid digit\n");
    assert_eq!(body(&e1), body(&e2));
}

#[test]
fn styles_wrap_the_invalid_value() {
    let mut o = opt("port", ParseType::Parameter);
    o.short_form = Some('p');
    let e = InnerError::invalid_value(ConfValueSource::Args, "abc", &o, "bad");
    let mut out = String::new();
    e.print_body(
        &mut out,
        &StyleCodes {
            on: "<".into(),
            off: ">".into(),
        },
    );
    assert_eq!(out, "  when parsing '-p' value <'abc'>: bad\n");
}

#[test]
fn long_error_messages_start_on_a_new_indented_line() {
    assert_eq!(format_err_str("short", 10), "short");
    assert_eq!(format_err_str("a\nb", 10), "\n    a\n    b");
    let long = "x".repeat(95);
    assert_eq!(format_err_str(&long, 10), format!("\n    {long}"));
}

#[test]
fn missing_required_body_and_solo() {
    let mut o = opt("port", ParseType::Parameter);
    o.long_form = Some("port".into());
    o.env_form = Some("PORT".into());
    let e = InnerError::MissingRequiredParameter(Box::new(o.clone()), None);
    assert_eq!(body(&e), "  env 'PORT', or '--port', must be provided\n");
    let mut solo = String::new();
    e.print_solo(&mut solo, &plain());
    assert_eq!(
        solo,
        "A required value was not provided\n  env 'PORT', or '--port', must be provided\n\nHelp:\n      --port <port>\n          [env: PORT]\n"
    );
    let mut appeared = opt("db.host", ParseType::Parameter);
    appeared.long_form = Some("db-host".into());
    let info = OwnedFlattenedOptionalDebugInfo {
        struct_name: "Db".into(),
        id_prefix: "db.".into(),
        option_appeared: Box::new(appeared),
        value_source: ConfValueSource::Args,
    };
    let e = InnerError::MissingRequiredParameter(Box::new(o), Some(Box::new(info)));
    assert_eq!(
        body(&e),
        "  env 'PORT', or '--port', must be provided\n    because '--db-host' was provided (enabling argument group Db @ .db)\n"
    );
}

#[test]
fn validation_body_names_the_instance() {
    let e = InnerError::validation("Config", "db.", "ports must differ");
    assert_eq!(
        body(&e),
        "  Config value was invalid (@ .db.): ports must differ\n"
    );
    let e = InnerError::validation("Config", "", "bad");
    assert_eq!(body(&e), "  Config value was invalid: bad\n");
}

#[test]
fn invalid_utf8_env_body() {
    let o = opt("a", ParseType::Parameter);
    let e = InnerError::invalid_utf8_env("A", &o, Some(&vec![0x61, 0xff]));
    assert_eq!(body(&e), "  A: 'a\u{fffd}'\n");
    let e = InnerError::invalid_utf8_env("A", &o, None);
    assert_eq!(body(&e), "  A: '***secret***'\n");
}

#[test]
fn constraint_bodies() {
    let mut a = opt("a", ParseType::Parameter);
    a.long_form = Some("a".into());
    let mut b = opt("b", ParseType::Parameter);
    b.env_form = Some("B".into());
    let e = InnerError::TooFewArguments(
        "S".into(),
        "x.".into(),
        vec![a.clone(), b.clone()],
        vec!["grp".into()],
        None,
    );
    assert_eq!(
        body(&e),
        "  One of these must be provided: (constraint on S @ .x): \n    '--a' \n    env 'B' \n    Argument group 'grp'\n"
    );
    let e = InnerError::TooManyArguments(
        "S".into(),
        "".into(),
        vec![(a.clone(), ConfValueSource::Args), (b.clone(), ConfValueSource::Env("B".into()))],
        vec![("grp".into(), a, ConfValueSource::Default)],
    );
    assert_eq!(
        body(&e),
        "  Too many arguments, provide at most one of these: (constraint on S): \n    '--a'\n    env 'B'\n    default value (part of argument group 'grp')\n"
    );
}

#[test]
fn render_helpers() {
    let mut s = String::from("a.b.");
    remove_trailing_dot(&mut s);
    assert_eq!(s, "a.b");
    remove_trailing_dot(&mut s);
    assert_eq!(s, "a.b");
    let mut o = opt("a", ParseType::Flag);
    o.short_form = Some('a');
    assert_eq!(render_provided_opt(&o, &ConfValueSource::Args), "'-a'");
    assert_eq!(
        render_provided_opt(&o, &ConfValueSource::Default),
        "default value"
    );
    assert_eq!(
        skip_short_not_found_message(&['x', 'y'], "field", "Type"),
        "Internal error (invalid skip short)\n  When flattening Type at field, these short options were not found: ['x', 'y']\n  To fix this error, remove them from the skip_short attribute list."
    );
}

fn styled(on: &str, off: &str) -> StyleCodes {
    StyleCodes {
        on: on.to_string(),
        off: off.to_string(),
    }
}

#[test]
fn string_order_is_lexicographic() {
    assert_eq!(compare_str("abc", "abd"), -1);
    assert_eq!(compare_str("abd", "abc"), 1);
    assert_eq!(compare_str("ab", "abc"), -1);
    assert_eq!(compare_str("", ""), 0);
    assert_eq!(compare_str("b", "aaaa"), 1);
    assert_eq!(compare_str("é", "z"), 1);
}

#[test]
fn option_order_is_field_by_field() {
    let a = opt("a", ParseType::Repeat);
    let b = opt("b", ParseType::Flag);
    assert_eq!(compare_options(&a, &b), -1);
    let mut a2 = opt("a", ParseType::Flag);
    assert_eq!(compare_options(&a2, &a), -1);
    a2.parse_type = ParseType::Repeat;
    assert_eq!(compare_options(&a2, &a), 0);
    a2.short_form = Some('x');
    assert_eq!(compare_options(&a2, &a), 1);
}

#[test]
fn errors_sort_by_kind_then_fields() {
    let o = opt("a", ParseType::Parameter);
    let errors = vec![
        InnerError::validation("S", "", "zeta"),
        InnerError::invalid_value(ConfValueSource::Args, "x", &o, "nope"),
        InnerError::validation("S", "", "alpha"),
        InnerError::MissingRequiredParameter(Box::new(o.clone()), None),
    ];
    assert_eq!(compare_errors(&errors[0], &errors[2]), 1);
    assert_eq!(compare_errors(&errors[3], &errors[1]), -1);
    let sorted = sort_errors(errors);
    let kinds: Vec<ErrorKind> = sorted.iter().map(|e| e.error_kind()).collect();
    assert_eq!(
        kinds,
        vec![
            ErrorKind::MissingRequiredArgument,
            ErrorKind::InvalidValue,
            ErrorKind::ValueValidation,
            ErrorKind::ValueValidation,
        ]
    );
    assert_eq!(body(&sorted[2]), body(&InnerError::validation("S", "", "alpha")));
    assert_eq!(body(&sorted[3]), body(&InnerError::validation("S", "", "zeta")));
}

#[test]
fn report_of_one_error_is_its_solo_text() {
    let e = InnerError::validation("S", "", "bad");
    let mut expected = String::new();
    InnerError::validation("S", "", "bad").print_solo(&mut expected, &plain());
    let (kind, text) = report_errors(vec![e], &styled("<E>", "</E>"), &plain());
    assert_eq!(kind, ErrorKind::ValueValidation);
    assert_eq!(text, expected);
}

#[test]
fn report_of_several_errors_groups_them_by_kind() {
    let mut o = opt("a", ParseType::Parameter);
    o.long_form = Some("a".to_string());
    let errors = vec![
        InnerError::validation("S", "", "bad2"),
        InnerError::MissingRequiredParameter(Box::new(o.clone()), None),
        InnerError::validation("S", "", "bad1"),
    ];
    let (kind, text) = report_errors(errors, &styled("<E>", "</E>"), &plain());
    assert_eq!(kind, ErrorKind::ValueValidation);
    assert_eq!(
        text,
        "A required value was not provided\n  '--a' must be provided\n<E>error: </E>Validation failed\n  S value was invalid: bad1\n  S value was invalid: bad2\n"
    );
}
