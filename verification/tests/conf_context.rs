use conf::conf_context::{ConfContext, ConfValueSource};
use conf::error::InnerError;
use conf::parse_env::{parse_env, ParsedEnv};
use conf::parsed_args::{ArgMatch, ParsedArgs};
use conf::program_option::{ParseType, ProgramOption};

fn opt(id: &str, parse_type: ParseType) -> ProgramOption {
    ProgramOption {
        id: id.to_string(),
        parse_type,
        description: None,
        short_form: None,
        long_form: None,
        aliases: vec![],
        env_form: None,
        env_aliases: vec![],
        default_value: None,
        default_help_str: None,
        is_required: true,
        allow_hyphen_values: false,
        secret: None,
        is_positional: false,
        has_serde_source: false,
    }
}

fn env_of(pairs: &[(&str, &[u8])]) -> ParsedEnv {
    parse_env(
        pairs
            .iter()
            .map(|(k, v)| (k.as_bytes().to_vec(), v.to_vec()))
            .collect(),
    )
}

fn matched(id: &str, values: &[&[u8]]) -> ArgMatch {
    ArgMatch {
        id: id.to_string(),
        values: values.iter().map(|v| v.to_vec()).collect(),
    }
}

fn port_option() -> ProgramOption {
    let mut o = opt("port", ParseType::Parameter);
    o.long_form = Some("port".into());
    o.env_form = Some("PORT".into());
    o.env_aliases = vec!["OLD_PORT".into(), "OLDER_PORT".into()];
    o.default_value = Some("80".into());
    o
}

fn args_with(options: Vec<ProgramOption>, matches: Vec<ArgMatch>) -> ParsedArgs {
    ParsedArgs {
        options,
        matches,
        subcommand: None,
    }
}

#[test]
fn args_shadow_env_which_shadows_aliases_which_shadow_default() {
    let args = args_with(vec![port_option()], vec![matched("port", &[b"1"])]);
    let env = env_of(&[("PORT", b"2"), ("OLD_PORT", b"3")]);
    let ctx = ConfContext::new(&args, &env);
    let (v, o) = ctx.get_string_opt("port").unwrap();
    assert_eq!(o.id, "port");
    let (src, val) = v.unwrap();
    assert!(matches!(src, ConfValueSource::Args));
    assert_eq!(val, "1");

    let args = args_with(vec![port_option()], vec![]);
    let ctx = ConfContext::new(&args, &env);
    let (src, val) = ctx.get_string_opt("port").unwrap().0.unwrap();
    assert!(matches!(src, ConfValueSource::Env("PORT")));
    assert_eq!(val, "2");

    let env = env_of(&[("OLDER_PORT", b"4"), ("OLD_PORT", b"3")]);
    let ctx = ConfContext::new(&args, &env);
    let (src, val) = ctx.get_string_opt("port").unwrap().0.unwrap();
    assert!(matches!(src, ConfValueSource::Env("OLD_PORT")));
    assert_eq!(val, "3");

    let env = env_of(&[]);
    let ctx = ConfContext::new(&args, &env);
    let (src, val) = ctx.get_string_opt("port").unwrap().0.unwrap();
    assert!(src.is_default());
    assert_eq!(val, "80");
    assert!(ctx.option_appears("port").unwrap().is_none());
}

#[test]
fn no_value_without_default() {
    let mut o = port_option();
    o.default_value = None;
    let args = args_with(vec![o], vec![]);
    let env = env_of(&[]);
    let ctx = ConfContext::new(&args, &env);
    assert!(ctx.get_string_opt("port").unwrap().0.is_none());
    assert!(ctx.get_osstring_opt("port").unwrap().0.is_none());
}

#[test]
fn env_only_option_ignores_command_line_matches() {
    let mut o = opt("token", ParseType::Parameter);
    o.env_form = Some("TOKEN".into());
    let args = args_with(vec![o], vec![matched("token", &[b"cli"])]);
    let env = env_of(&[("TOKEN", b"env")]);
    let ctx = ConfContext::new(&args, &env);
    let (src, val) = ctx.get_string_opt("token").unwrap().0.unwrap();
    assert!(matches!(src, ConfValueSource::Env("TOKEN")));
    assert_eq!(val, "env");
}

#[test]
fn invalid_utf8_on_command_line_is_an_invalid_value() {
    let args = args_with(vec![port_option()], vec![matched("port", &[&[0xff, 0x31]])]);
    let env = env_of(&[]);
    let ctx = ConfContext::new(&args, &env);
    let (raw, _) = ctx.get_osstring_opt("port").unwrap();
    assert_eq!(raw.unwrap().1, &[0xff, 0x31]);
    match ctx.get_string_opt("port") {
        Err(InnerError::InvalidParameterValue(src, text, opt, msg)) => {
            assert!(matches!(src, ConfValueSource::Args));
            assert_eq!(text, "\u{fffd}1");
            assert_eq!(opt.id, "port");
            assert_eq!(msg, "Invalid UTF-8");
        }
        _ => panic!("expected an invalid value error"),
    }
}

#[test]
fn boolean_flags_read_args_then_env_then_false() {
    let mut o = opt("verbose", ParseType::Flag);
    o.short_form = Some('v');
    o.env_form = Some("VERBOSE".into());
    let args = args_with(vec![o.clone()], vec![matched("verbose", &[])]);
    let env = env_of(&[("VERBOSE", b"no")]);
    let ctx = ConfContext::new(&args, &env);
    let (src, b) = ctx.get_boolean_opt("verbose").unwrap();
    assert!(matches!(src, ConfValueSource::Args));
    assert!(b);

    let args = args_with(vec![o.clone()], vec![]);
    let ctx = ConfContext::new(&args, &env);
    let (src, b) = ctx.get_boolean_opt("verbose").unwrap();
    assert!(matches!(src, ConfValueSource::Env("VERBOSE")));
    assert!(!b);

    let env = env_of(&[("VERBOSE", b"1")]);
    let ctx = ConfContext::new(&args, &env);
    assert!(ctx.get_boolean_opt("verbose").unwrap().1);
    assert!(ctx.option_appears("verbose").unwrap().is_some());

    let env = env_of(&[]);
    let ctx = ConfContext::new(&args, &env);
    let (src, b) = ctx.get_boolean_opt("verbose").unwrap();
    assert!(src.is_default());
    assert!(!b);
    assert!(ctx.option_appears("verbose").unwrap().is_none());
}

#[test]
fn invalid_utf8_env_error_hides_secret_bytes() {
    let mut o = opt("flag", ParseType::Flag);
    o.env_form = Some("FLAG".into());
    let args = args_with(vec![o.clone()], vec![]);
    let env = env_of(&[("FLAG", &[0xff])]);
    let ctx = ConfContext::new(&args, &env);
    match ctx.get_boolean_opt("flag") {
        Err(InnerError::InvalidUtf8Env(name, _, bytes)) => {
            assert_eq!(name, "FLAG");
            assert_eq!(bytes, Some(vec![0xff]));
        }
        _ => panic!("expected an env error"),
    }
    o.secret = Some(true);
    let args = args_with(vec![o], vec![]);
    let ctx = ConfContext::new(&args, &env);
    match ctx.get_boolean_opt("flag") {
        Err(InnerError::InvalidUtf8Env(_, _, bytes)) => assert_eq!(bytes, None),
        _ => panic!("expected an env error"),
    }
}

#[test]
fn repeat_values_split_env_by_delimiter() {
    let mut o = opt("hosts", ParseType::Repeat);
    o.long_form = Some("host".into());
    o.env_form = Some("HOSTS".into());
    let args = args_with(vec![o.clone()], vec![]);
    let env = env_of(&[("HOSTS", b"a,b,,c")]);
    let ctx = ConfContext::new(&args, &env);
    let (src, vals, _) = ctx.get_repeat_opt("hosts", Some(',')).unwrap();
    assert!(matches!(src, ConfValueSource::Env("HOSTS")));
    assert_eq!(vals, vec!["a", "b", "", "c"]);
    let (_, vals, _) = ctx.get_repeat_opt("hosts", None).unwrap();
    assert_eq!(vals, vec!["a,b,,c"]);
    let (_, raw, _) = ctx.get_repeat_osstring_opt("hosts").unwrap();
    assert_eq!(raw, vec![&b"a,b,,c"[..]]);

    let args = args_with(vec![o.clone()], vec![matched("hosts", &[b"x", b"y"])]);
    let ctx = ConfContext::new(&args, &env);
    let (src, vals, _) = ctx.get_repeat_opt("hosts", Some(',')).unwrap();
    assert!(matches!(src, ConfValueSource::Args));
    assert_eq!(vals, vec!["x", "y"]);

    let args = args_with(vec![o], vec![]);
    let env = env_of(&[]);
    let ctx = ConfContext::new(&args, &env);
    let (src, vals, _) = ctx.get_repeat_opt("hosts", Some(',')).unwrap();
    assert!(src.is_default());
    assert!(vals.is_empty());
}

#[test]
fn flattened_context_reads_prefixed_ids() {
    let mut inner = port_option();
    inner.id = "db.port".into();
    inner.long_form = Some("db-port".into());
    let args = args_with(vec![inner], vec![matched("db.port", &[b"5432"])]);
    let env = env_of(&[]);
    let ctx = ConfContext::new(&args, &env);
    let sub = ctx.for_flattened("db.");
    assert_eq!(sub.get_id_prefix(), "db.");
    let (_, val) = sub.get_string_opt("port").unwrap().0.unwrap();
    assert_eq!(val, "5432");
}

#[test]
fn missing_required_error_records_flattened_optional_reason() {
    let mut a = opt("db.host", ParseType::Parameter);
    a.long_form = Some("db-host".into());
    let mut b = opt("db.port", ParseType::Parameter);
    b.long_form = Some("db-port".into());
    let args = args_with(vec![a, b.clone()], vec![matched("db.host", &[b"h"])]);
    let env = env_of(&[]);
    let ctx = ConfContext::new(&args, &env);
    let appeared = ctx.for_flattened("db.").any_program_options_appeared(&["host", "port"]);
    let (idx, src) = appeared.unwrap().unwrap();
    assert_eq!(idx, 0);
    let sub = ctx.for_flattened_optional("db.", "Db", ("host", src));
    match sub.missing_required_parameter_error(&b) {
        InnerError::MissingRequiredParameter(o, Some(info)) => {
            assert_eq!(o.id, "db.port");
            assert_eq!(info.struct_name, "Db");
            assert_eq!(info.id_prefix, "db.");
            assert_eq!(info.option_appeared.id, "db.host");
        }
        _ => panic!("expected a missing-required error with context"),
    }
    match ctx.missing_required_parameter_error(&b) {
        InnerError::MissingRequiredParameter(_, None) => {}
        _ => panic!("expected no context at top level"),
    }
}

#[test]
fn too_many_arguments_lists_only_appearing_options() {
    let mut a = opt("a", ParseType::Parameter);
    a.long_form = Some("a".into());
    let mut b = opt("b", ParseType::Parameter);
    b.long_form = Some("b".into());
    b.default_value = Some("x".into());
    let mut c = opt("c", ParseType::Parameter);
    c.env_form = Some("C".into());
    let mut g = opt("grp.x", ParseType::Flag);
    g.long_form = Some("grp-x".into());
    let args = args_with(vec![a, b, c, g], vec![matched("a", &[b"1"])]);
    let env = env_of(&[("C", b"3")]);
    let ctx = ConfContext::new(&args, &env);
    let err = ctx.too_many_arguments_error(
        "S",
        &["a", "b", "c"],
        vec![("grp", Some(("x", ConfValueSource::Args))), ("other", None)],
    );
    match err {
        InnerError::TooManyArguments(name, prefix, singles, flattened) => {
            assert_eq!(name, "S");
            assert_eq!(prefix, "");
            assert_eq!(singles.len(), 2);
            assert_eq!(singles[0].0.id, "a");
            assert!(matches!(singles[0].1, ConfValueSource::Args));
            assert_eq!(singles[1].0.id, "c");
            assert!(matches!(&singles[1].1, ConfValueSource::Env(n) if n == "C"));
            assert_eq!(flattened.len(), 1);
            assert_eq!(flattened[0].0, "grp");
            assert_eq!(flattened[0].1.id, "grp.x");
        }
        _ => panic!("expected too many arguments"),
    }
    let err = ctx.too_few_arguments_error("S", &["a", "c"], &["grp"]);
    match err {
        InnerError::TooFewArguments(name, _, singles, flattened, None) => {
            assert_eq!(name, "S");
            assert_eq!(singles.len(), 2);
            assert_eq!(flattened, vec!["grp".to_string()]);
        }
        _ => panic!("expected too few arguments"),
    }
}

#[test]
fn subcommand_context_uses_the_subcommand_matches() {
    let mut o = opt("name", ParseType::Parameter);
    o.long_form = Some("name".into());
    let sub = args_with(vec![o], vec![matched("name", &[b"n"])]);
    let top = ParsedArgs {
        options: vec![],
        matches: vec![],
        subcommand: Some(("run".to_string(), Box::new(sub))),
    };
    let env = env_of(&[]);
    let ctx = ConfContext::new(&top, &env);
    let (name, sub_ctx) = ctx.for_subcommand().unwrap();
    assert_eq!(name, "run");
    assert_eq!(sub_ctx.get_string_opt("name").unwrap().0.unwrap().1, "n");
    let none = args_with(vec![], vec![]);
    assert!(ConfContext::new(&none, &env).for_subcommand().is_none());
}

#[test]
fn parsed_args_lookups() {
    let args = args_with(
        vec![opt("a", ParseType::Flag), opt("b", ParseType::Flag)],
        vec![matched("a", &[])],
    );
    assert_eq!(args.get_available_ids(), vec!["a", "b"]);
    assert_eq!(args.get_program_option("b").unwrap().id, "b");
    assert!(args.get_program_option("c").is_none());
    assert!(args.get_values("a").is_some());
    assert!(args.get_values("b").is_none());
}
