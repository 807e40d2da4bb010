use conf::conf_context::{ConfContext, ConfValueSource};
use conf::derive_attrs::{Attr, AttrArg, AttrValue, GenericArg, GenericArgs, Lit, TypeShape};
use conf::derive_fields::{FieldInput, FieldItem};
use conf::document::{
    document_keys, finalize_struct, finish_struct, route_key, KeyAction, KeyRoute, MachineState,
};
use conf::duration::{parse_duration, parse_time_delta};
use conf::error::InnerError;
use conf::initialize::{
    collect_failures, collect_repeat_values, missing_value_plan, parameter_text, resolve_parameter, resolve_repeat,
    DocValue, MissingValuePlan,
};
use conf::naming::char_is_whitespace;
use conf::parse_env::{parse_env, ParsedEnv};
use conf::parsed_args::{ArgMatch, ParsedArgs};
use conf::parser::build_help_text;
use conf::password::Password;
use conf::program_option::{ParseType, ProgramOption};

fn opt(id: &str, parse_type: ParseType) -> ProgramOption {
    ProgramOption {
        id: id.to_string(),
        parse_type,
        description: None,
        short_form: None,
        long_form: None,
        aliases: vec![],
        env_form: None,
        env_aliases: vec![],
        default_value: None,
        default_help_str: None,
        is_required: true,
        allow_hyphen_values: false,
        secret: None,
        is_positional: false,
        has_serde_source: false,
    }
}

fn env_of(pairs: &[(&str, &[u8])]) -> ParsedEnv {
    parse_env(
        pairs
            .iter()
            .map(|(k, v)| (k.as_bytes().to_vec(), v.to_vec()))
            .collect(),
    )
}

fn args_with(options: Vec<ProgramOption>, matches: Vec<ArgMatch>) -> ParsedArgs {
    ParsedArgs {
        options,
        matches,
        subcommand: None,
    }
}

fn matched(id: &str, values: &[&[u8]]) -> ArgMatch {
    ArgMatch {
        id: id.to_string(),
        values: values.iter().map(|v| v.to_vec()).collect(),
    }
}

#[test]
fn durations_the_parser_would_not_return_on_are_errors() {
    let expected = "ParseError(\"invalid duration: 1µs\")";
    assert_eq!(parse_duration("1µs").unwrap_err(), expected);
    assert!(parse_duration("0.12345678901234567890s").is_err());
    assert!(parse_time_delta("0.12345678901234567890s").is_err());
    assert!(parse_duration("4611686018427387904ns4611686018427387904ns").is_err());
    // Texts on which the parser returns its own error are handed to it.
    assert_eq!(
        parse_duration("3000000h").unwrap_err(),
        "ParseError(\"invalid duration 3000000h\")"
    );
    assert_eq!(
        parse_duration("1µs5s").unwrap_err(),
        "ParseError(\"unknown unit µ in duration 1µs5s\")"
    );
    assert_eq!(
        parse_duration("1x µs").unwrap_err(),
        "ParseError(\"invalid duration: 1x µs\")"
    );
    assert!(parse_duration("0.0000000000000000000001s").is_ok());
    assert_eq!(
        parse_duration("0.123456789012345678s").unwrap(),
        std::time::Duration::from_nanos(123456789)
    );
    assert_eq!(
        parse_duration("2h45m").unwrap(),
        std::time::Duration::from_secs(2 * 3600 + 45 * 60)
    );
}

#[test]
fn help_of_a_secret_never_shows_env_values() {
    let mut o = opt("token", ParseType::Parameter);
    o.is_positional = true;
    o.env_form = Some("TOKEN".into());
    o.env_aliases = vec!["OLD_TOKEN".into()];
    o.secret = Some(true);
    let with_env = build_help_text(&o, &env_of(&[("TOKEN", b"hunter2"), ("OLD_TOKEN", b"x")]));
    let without = build_help_text(&o, &env_of(&[]));
    assert_eq!(with_env, "\n[env TOKEN]\n[env OLD_TOKEN]\n[secret]");
    assert_eq!(with_env, without);
    o.secret = None;
    let shown = build_help_text(&o, &env_of(&[("TOKEN", b"abc")]));
    assert_eq!(shown, "\n[env TOKEN=abc]\n[env OLD_TOKEN=]");
}

#[test]
fn flags_read_env_aliases() {
    let mut o = opt("verbose", ParseType::Flag);
    o.long_form = Some("verbose".into());
    o.env_form = Some("VERBOSE".into());
    o.env_aliases = vec!["OLD_VERBOSE".into()];
    let args = args_with(vec![o], vec![]);
    let env = env_of(&[("OLD_VERBOSE", b"1")]);
    let ctx = ConfContext::new(&args, &env);
    let (src, b) = ctx.get_boolean_opt("verbose").unwrap();
    assert!(matches!(src, ConfValueSource::Env("OLD_VERBOSE")));
    assert!(b);
    let env = env_of(&[("OLD_VERBOSE", &[0xff])]);
    let ctx = ConfContext::new(&args, &env);
    assert!(matches!(
        ctx.get_boolean_opt("verbose"),
        Err(InnerError::InvalidUtf8Env(..))
    ));
}

#[test]
fn a_parameter_given_twice_is_an_error() {
    let mut o = opt("port", ParseType::Parameter);
    o.long_form = Some("port".into());
    let args = args_with(vec![o], vec![matched("port", &[b"1", b"2"])]);
    let env = env_of(&[]);
    let ctx = ConfContext::new(&args, &env);
    match ctx.get_osstring_opt("port") {
        Err(InnerError::InvalidParameterValue(src, text, o, msg)) => {
            assert!(matches!(src, ConfValueSource::Args));
            assert_eq!(text, "2");
            assert_eq!(o.id, "port");
            assert_eq!(msg, "the argument cannot be used multiple times");
        }
        _ => panic!("expected an error"),
    }
    assert!(ctx.get_string_opt("port").is_err());
}

#[test]
fn password_conversions_keep_the_text() {
    assert_eq!(Password::from("s3cret").as_str(), "s3cret");
    assert_eq!(Password::from("s3cret".to_string()).as_str(), "s3cret");
}

#[test]
fn every_invalid_repeat_value_is_reported() {
    let o = opt("ports", ParseType::Repeat);
    let texts = vec!["1".to_string(), "x".to_string(), "3".to_string(), "y".to_string()];
    let parsed: Vec<Result<u16, String>> = vec![
        Ok(1),
        Err("not a number".to_string()),
        Ok(3),
        Err("not a number".to_string()),
    ];
    match collect_repeat_values(ConfValueSource::Args, &texts, parsed, &o) {
        Err(errs) => {
            assert_eq!(errs.len(), 2);
            match &errs[0] {
                InnerError::InvalidParameterValue(_, text, _, msg) => {
                    assert_eq!(text, "x");
                    assert_eq!(msg, "not a number");
                }
                _ => panic!("expected an invalid value"),
            }
            match &errs[1] {
                InnerError::InvalidParameterValue(_, text, _, _) => assert_eq!(text, "y"),
                _ => panic!("expected an invalid value"),
            }
        }
        Ok(_) => panic!("expected errors"),
    }
    let parsed: Vec<Result<u16, String>> = vec![Ok(1), Ok(2)];
    let texts = vec!["1".to_string(), "2".to_string()];
    assert_eq!(
        collect_repeat_values(ConfValueSource::Args, &texts, parsed, &o).ok(),
        Some(vec![1, 2])
    );
}

fn field(name: &str, ty: TypeShape, args: Vec<AttrArg>) -> FieldInput {
    FieldInput {
        name: Some(name.to_string()),
        ty,
        attrs: vec![Attr::List("arg".to_string(), args)],
    }
}

fn key_str(k: &str, v: &str) -> AttrArg {
    AttrArg {
        key: k.to_string(),
        value: AttrValue::Lit(Lit::Str(v.to_string())),
        text: format!("{v:?}"),
    }
}

fn key(k: &str) -> AttrArg {
    AttrArg {
        key: k.to_string(),
        value: AttrValue::Absent,
        text: String::new(),
    }
}

#[test]
fn missing_value_plans() {
    let plain = TypeShape::Path("u16".to_string(), GenericArgs::Plain);
    let optional = TypeShape::Path(
        "Option".to_string(),
        GenericArgs::Angle(vec![GenericArg::Type(Some("u16".to_string()))]),
    );
    let with_default = FieldItem::new(&field("port", TypeShape::Path("u16".to_string(), GenericArgs::Plain), vec![key("long"), key_str("default_value", "80")]), false).ok().unwrap();
    assert!(matches!(missing_value_plan(&with_default), Some(MissingValuePlan::ParseDefault(d)) if d == "80"));
    let opt_field = FieldItem::new(&field("port", optional, vec![key("long")]), false).ok().unwrap();
    assert!(matches!(missing_value_plan(&opt_field), Some(MissingValuePlan::NoValue)));
    let required = FieldItem::new(&field("port", plain, vec![key("long")]), false).ok().unwrap();
    assert!(matches!(missing_value_plan(&required), Some(MissingValuePlan::Missing)));
}

#[test]
fn parameter_precedence() {
    let o = opt("port", ParseType::Parameter);
    let args = args_with(vec![opt("port", ParseType::Parameter)], vec![]);
    let env = env_of(&[]);
    let ctx = ConfContext::new(&args, &env);
    let plan = MissingValuePlan::ParseDefault("80".to_string());

    // A value found on the command line is parsed; the document is ignored.
    let found = Some((ConfValueSource::Args, "8080".to_string()));
    let doc = Some(("conf.toml".to_string(), DocValue::Value(1u16)));
    let text = parameter_text(&found, &doc, &plan).unwrap();
    assert_eq!(text.1, "8080");
    let r = resolve_parameter(&ctx, found, doc, Some(Ok(8080u16)), None, &plan, &o);
    assert!(matches!(r, Ok(Some((ConfValueSource::Args, 8080)))));

    // Else the document's value.
    let doc = Some(("conf.toml".to_string(), DocValue::Value(7u16)));
    assert!(parameter_text(&None, &doc, &plan).is_none());
    let r = resolve_parameter(&ctx, None, doc, None, None, &plan, &o);
    assert!(matches!(r, Ok(Some((ConfValueSource::Document(n), 7))) if n == "conf.toml"));

    // A document's text goes through the value parser, with the document as its source.
    let doc: Option<(String, DocValue<u16>)> = Some(("conf.toml".to_string(), DocValue::Text("x9".to_string())));
    let text = parameter_text(&None, &doc, &plan).unwrap();
    assert!(matches!(text.0, ConfValueSource::Document(ref n) if n == "conf.toml"));
    assert_eq!(text.1, "x9");
    let r = resolve_parameter(&ctx, None, doc, Some(Err("not a number".to_string())), None, &plan, &o);
    match r {
        Err(InnerError::InvalidParameterValue(ConfValueSource::Document(n), text, _, msg)) => {
            assert_eq!(n, "conf.toml");
            assert_eq!(text, "x9");
            assert_eq!(msg, "not a number");
        }
        _ => panic!("expected an invalid value from the document"),
    }

    // Else the default text, parsed.
    let text = parameter_text::<u16>(&None, &None, &plan).unwrap();
    assert!(matches!(text.0, ConfValueSource::Default));
    assert_eq!(text.1, "80");
    let r = resolve_parameter::<u16>(&ctx, None, None, Some(Err("bad".to_string())), None, &plan, &o);
    match r {
        Err(InnerError::InvalidParameterValue(src, text, _, msg)) => {
            assert!(matches!(src, ConfValueSource::Default));
            assert_eq!(text, "80");
            assert_eq!(msg, "bad");
        }
        _ => panic!("expected an invalid value"),
    }

    // Else the default expression, no value, or the missing-value error.
    let r = resolve_parameter(&ctx, None, None, None, Some(5u16), &MissingValuePlan::UseDefaultExpr, &o);
    assert!(matches!(r, Ok(Some((ConfValueSource::Default, 5)))));
    let r = resolve_parameter::<u16>(&ctx, None, None, None, None, &MissingValuePlan::NoValue, &o);
    assert!(matches!(r, Ok(None)));
    let r = resolve_parameter::<u16>(&ctx, None, None, None, None, &MissingValuePlan::Missing, &o);
    assert!(matches!(r, Err(InnerError::MissingRequiredParameter(..))));
}

#[test]
fn document_keys_are_routed_to_fields() {
    let keys = vec![
        vec!["host".to_string(), "hostname".to_string()],
        vec![],
        vec!["port".to_string()],
    ];
    assert_eq!(route_key(&keys, "hostname", false), KeyRoute::Field(0));
    assert_eq!(route_key(&keys, "port", false), KeyRoute::Field(2));
    assert_eq!(route_key(&keys, "other", false), KeyRoute::Unknown);
    assert_eq!(route_key(&keys, "other", true), KeyRoute::Ignored);
    assert_eq!(document_keys(&keys), vec!["host", "hostname", "port"]);

    let mut state = MachineState::new(3);
    assert_eq!(state.next_key(&keys, "host", false), KeyAction::Deserialize(0));
    assert_eq!(state.next_key(&keys, "hostname", false), KeyAction::Duplicate(0));
    assert_eq!(state.next_key(&keys, "other", false), KeyAction::Unknown);
    assert_eq!(state.next_key(&keys, "other", true), KeyAction::Ignore);
    assert_eq!(finalize_struct(&state).from_context, vec![1, 2]);
    let o = opt("host", ParseType::Parameter);
    state.record_error(InnerError::MissingRequiredParameter(Box::new(o), None));
    match finish_struct(state, Some(1u8)) {
        Err(errs) => assert_eq!(errs.len(), 1),
        Ok(_) => panic!("expected the recorded error"),
    }
    let state = MachineState::new(1);
    assert_eq!(finish_struct(state, Some(1u8)).ok(), Some(1));
}

#[test]
fn repeat_precedence() {
    let r = resolve_repeat(Some(ConfValueSource::Args), Some(Ok(vec![1u8, 2])), Some(("d".to_string(), vec![9u8])));
    assert!(matches!(r, Ok((ConfValueSource::Args, ref v)) if *v == vec![1, 2]));
    let r = resolve_repeat(None, None, Some(("d".to_string(), vec![9u8])));
    assert!(matches!(r, Ok((ConfValueSource::Document(ref n), ref v)) if n == "d" && *v == vec![9]));
    let r = resolve_repeat::<u8>(None, None, None);
    assert!(matches!(r, Ok((ConfValueSource::Default, ref v)) if v.is_empty()));
    let o = opt("x", ParseType::Repeat);
    let r = resolve_repeat::<u8>(
        Some(ConfValueSource::Args),
        Some(Err(vec![InnerError::MissingRequiredParameter(Box::new(o), None)])),
        None,
    );
    assert!(matches!(r, Err(ref es) if es.len() == 1));
}

#[test]
fn whitespace_is_std_whitespace() {
    for c in (0u32..=0x10FFFF).filter_map(char::from_u32) {
        assert_eq!(char_is_whitespace(c), c.is_whitespace(), "{c:?}");
    }
}

#[test]
fn help_shows_the_default_help_text() {
    let mut o = opt("port", ParseType::Parameter);
    o.long_form = Some("port".into());
    o.default_value = Some("80".into());
    assert_eq!(build_help_text(&o, &env_of(&[])), "");
    o.default_help_str = Some("eighty".into());
    assert_eq!(build_help_text(&o, &env_of(&[])), "\n[default: eighty]");

    let f = FieldItem::new(
        &field("port", TypeShape::Path("u16".to_string(), GenericArgs::Plain), vec![key("long"), key_str("default_value", "80")]),
        false,
    )
    .ok()
    .unwrap();
    let p = f.program_option().unwrap();
    assert_eq!(p.default_value.as_deref(), Some("80"));
    assert_eq!(p.default_help_str.as_deref(), Some("80"));
    let f = FieldItem::new(
        &field(
            "port",
            TypeShape::Path("u16".to_string(), GenericArgs::Plain),
            vec![key("long"), key_str("default_value", "80"), key_str("default_help_str", "the usual port")],
        ),
        false,
    )
    .ok()
    .unwrap();
    assert_eq!(f.program_option().unwrap().default_help_str.as_deref(), Some("the usual port"));
}

#[test]
fn every_failed_check_is_reported() {
    let results = vec![
        Ok(()),
        Err(InnerError::ValidationFailed("S".into(), "".into(), "first".into())),
        Ok(()),
        Err(InnerError::ValidationFailed("S".into(), "".into(), "second".into())),
    ];
    match collect_failures(results) {
        Err(errs) => {
            assert_eq!(errs.len(), 2);
            assert!(matches!(&errs[1], InnerError::ValidationFailed(_, _, m) if m == "second"));
        }
        Ok(()) => panic!("expected the failures"),
    }
    assert!(collect_failures(vec![Ok(()), Ok(())]).is_ok());
}

#[test]
fn optional_group_is_enabled_by_an_option_that_appears() {
    let mut host = opt("db.host", ParseType::Parameter);
    host.long_form = Some("db-host".into());
    host.is_required = false;
    let mut port = opt("db.port", ParseType::Parameter);
    port.long_form = Some("db-port".into());
    port.default_value = Some("5432".into());
    let options = vec![host, port];
    let env = env_of(&[]);

    let args = args_with(options.clone(), vec![]);
    let ctx = ConfContext::new(&args, &env);
    assert!(ctx.for_optional_group("db.", "Db", &["host", "port"]).unwrap().is_none());

    let args = args_with(options, vec![matched("db.port", &[b"6000"])]);
    let ctx = ConfContext::new(&args, &env);
    let group = ctx.for_optional_group("db.", "Db", &["host", "port"]).unwrap().unwrap();
    assert_eq!(group.get_id_prefix(), "db.");
    let (src, val) = group.get_string_opt("port").unwrap().0.unwrap();
    assert!(matches!(src, ConfValueSource::Args));
    assert_eq!(val, "6000");
    match group.missing_required_parameter_error(&opt("db.host", ParseType::Parameter)) {
        InnerError::MissingRequiredParameter(_, Some(info)) => {
            assert_eq!(info.struct_name, "Db");
            assert_eq!(info.option_appeared.id, "db.port");
        }
        _ => panic!("expected the group's reason"),
    }
}
