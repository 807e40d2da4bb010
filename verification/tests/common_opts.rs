use conf::parse_env::{parse_env, ParsedEnv};
use conf::program_option::{ParseType, ProgramOption};
use conf::str_to_bool::str_to_bool;

pub fn opt(id: &str, parse_type: ParseType) -> ProgramOption {
    ProgramOption {
        id: id.to_string(),
        parse_type,
        description: None,
        short_form: None,
        long_form: None,
        aliases: vec![],
        env_form: None,
        env_aliases: vec![],
        default_value: None,
        default_help_str: None,
        is_required: true,
        allow_hyphen_values: false,
        secret: None,
        is_positional: false,
        has_serde_source: false,
    }
}

pub fn env_of(pairs: &[(&str, &str)]) -> ParsedEnv {
    parse_env(
        pairs
            .iter()
            .map(|(k, v)| (k.as_bytes().to_vec(), v.as_bytes().to_vec()))
            .collect(),
    )
}

#[test]
fn str_to_bool_false_words() {
    for w in ["", "0", "n", "no", "f", "false", "off", "FALSE", "Off", "No"] {
        assert!(!str_to_bool(w), "{w}");
    }
    for w in ["1", "y", "yes", "true", "on", "TRUE", "anything"] {
        assert!(str_to_bool(w), "{w}");
    }
}

#[test]
fn parse_env_later_values_win_and_non_utf8_names_are_dropped() {
    let env = parse_env(vec![
        (b"A".to_vec(), b"1".to_vec()),
        (vec![0xff], b"x".to_vec()),
        (b"A".to_vec(), b"2".to_vec()),
        (b"B".to_vec(), vec![0xfe]),
    ]);
    assert_eq!(env.get("A"), Some(&b"2".to_vec()));
    assert_eq!(env.get("B"), Some(&vec![0xfe]));
    assert_eq!(env.get("C"), None);
    assert_eq!(env.get_lossy_or_default("A"), "2");
    assert_eq!(env.get_lossy_or_default("C"), "");
    assert_eq!(env.get_lossy_or_default("B"), "\u{fffd}");
}

#[test]
fn apply_flatten_prefixes_prefixes_everything_but_short() {
    let mut o = opt("port", ParseType::Parameter);
    o.short_form = Some('p');
    o.long_form = Some("port".into());
    o.aliases = vec!["p0rt".into()];
    o.env_form = Some("PORT".into());
    o.env_aliases = vec!["OLD_PORT".into()];
    o.description = Some("The port".into());
    let r = o.apply_flatten_prefixes("db.", "db-", "DB_", "Database:");
    assert_eq!(r.id, "db.port");
    assert_eq!(r.short_form, Some('p'));
    assert_eq!(r.long_form.as_deref(), Some("db-port"));
    assert_eq!(r.aliases, vec!["db-p0rt".to_string()]);
    assert_eq!(r.env_form.as_deref(), Some("DB_PORT"));
    assert_eq!(r.env_aliases, vec!["DB_OLD_PORT".to_string()]);
    assert_eq!(r.description.as_deref(), Some("Database: The port"));
}

#[test]
fn flatten_description_joins_with_newline_when_multiline() {
    let mut o = opt("x", ParseType::Flag);
    o.description = Some("line1\nline2".into());
    let r = o.apply_flatten_prefixes("", "", "", "Prefix");
    assert_eq!(r.description.as_deref(), Some("Prefix\nline1\nline2"));
    let mut o = opt("x", ParseType::Flag);
    o.description = Some("desc".into());
    let r = o.apply_flatten_prefixes("", "", "", "");
    assert_eq!(r.description.as_deref(), Some("desc"));
}

#[test]
fn nested_flattening_concatenates_prefixes() {
    let mut o = opt("port", ParseType::Parameter);
    o.long_form = Some("port".into());
    o.env_form = Some("PORT".into());
    let twice = o
        .clone()
        .apply_flatten_prefixes("inner.", "inner-", "INNER_", "")
        .apply_flatten_prefixes("outer.", "outer-", "OUTER_", "");
    let once = o.apply_flatten_prefixes("outer.inner.", "outer-inner-", "OUTER_INNER_", "");
    assert_eq!(twice.id, once.id);
    assert_eq!(twice.long_form, once.long_form);
    assert_eq!(twice.env_form, once.env_form);
}

#[test]
fn skip_short_forms_drops_listed_short_and_marks_it() {
    let mut o = opt("verbose", ParseType::Flag);
    o.short_form = Some('v');
    let mut was_skipped = [false, false];
    let r = o.clone().skip_short_forms(&['x', 'v'], &mut was_skipped);
    assert_eq!(r.short_form, None);
    assert_eq!(was_skipped, [false, true]);
    let mut was_skipped = [false];
    let r = o.skip_short_forms(&['x'], &mut was_skipped);
    assert_eq!(r.short_form, Some('v'));
    assert_eq!(was_skipped, [false]);
}

#[test]
fn make_optional_and_is_secret() {
    let mut o = opt("a", ParseType::Parameter);
    assert!(o.is_required);
    assert!(!o.is_secret());
    o.secret = Some(true);
    assert!(o.is_secret());
    o.secret = Some(false);
    assert!(!o.is_secret());
    let r = o.make_optional();
    assert!(!r.is_required);
}

#[test]
fn print_renders_help_block() {
    let mut o = opt("xyz", ParseType::Parameter);
    o.short_form = Some('x');
    o.long_form = Some("xyz".into());
    o.description = Some("This is the description.\nSecond line".into());
    o.env_form = Some("XYZ".into());
    o.default_value = Some("123".into());
    let env = env_of(&[("XYZ", "ABC")]);
    let mut out = String::new();
    o.print(&mut out, Some(&env));
    assert_eq!(
        out,
        "  -x, --xyz <xyz>\n          This is the description.\n          Second line\n          [env: XYZ=ABC]\n          [default: 123]\n"
    );
    let mut out = String::new();
    o.print(&mut out, None);
    assert!(out.contains("[env: XYZ]\n"));
}

#[test]
fn print_of_secret_hides_env_value() {
    let mut o = opt("token", ParseType::Parameter);
    o.env_form = Some("TOKEN".into());
    o.secret = Some(true);
    let env = env_of(&[("TOKEN", "hunter2")]);
    let mut with_env = String::new();
    o.print(&mut with_env, Some(&env));
    let mut without = String::new();
    o.print(&mut without, None);
    assert_eq!(with_env, without);
    assert_eq!(with_env, "      <token>\n          [env: TOKEN]\n          [secret]\n");
    assert!(!with_env.contains("hunter2"));
}

#[test]
fn parse_type_names() {
    assert_eq!(ParseType::Flag.to_string(), "Flag");
    assert_eq!(ParseType::Parameter.to_string(), "Parameter");
    assert_eq!(ParseType::Repeat.to_string(), "Repeat");
}
