use conf::duration::{parse_duration, parse_time_delta};
use conf::lazybuf::{count, FlattenTransform, LazyBuf, Node};
use conf::password::Password;
use conf::program_option::{ParseType, ProgramOption};
use conf::shell::Shell;
use conf::state_machine::{strip_prefix, IdentString};
use std::time::Duration;

fn opt(id: &str) -> ProgramOption {
    ProgramOption {
        id: id.to_string(),
        parse_type: ParseType::Parameter,
        description: None,
        short_form: None,
        long_form: Some(id.to_string()),
        aliases: vec![],
        env_form: None,
        env_aliases: vec![],
        default_value: None,
        default_help_str: None,
        is_required: true,
        allow_hyphen_values: false,
        secret: None,
        is_positional: false,
        has_serde_source: false,
    }
}

fn transform(prefix: &str, make_optional: bool) -> FlattenTransform {
    FlattenTransform {
        id_prefix: format!("{prefix}."),
        long_prefix: format!("{prefix}-"),
        env_prefix: String::new(),
        description_prefix: String::new(),
        make_optional,
    }
}

#[test]
fn lazybuf_yields_count_items_with_nested_transforms() {
    let inner = LazyBuf {
        buffer: vec![Node::Leaf(opt("host")), Node::Leaf(opt("port"))],
        transform: transform("db", true),
    };
    let top = LazyBuf {
        buffer: vec![Node::Leaf(opt("name")), Node::Branch(inner)],
        transform: transform("app", false),
    };
    assert_eq!(top.count(), 3);
    assert_eq!(count(&top.buffer), 3);
    assert_eq!(top.buffer[1].count(), 2);
    let items = top.iter();
    assert_eq!(items.len(), top.count());
    let ids: Vec<&str> = items.iter().map(|o| o.id.as_str()).collect();
    assert_eq!(ids, vec!["app.name", "app.db.host", "app.db.port"]);
    assert_eq!(items[1].long_form.as_deref(), Some("app-db-host"));
    assert!(items[0].is_required);
    assert!(!items[2].is_required);
}

#[test]
fn shell_names_parse_and_display() {
    assert_eq!(Shell::parse(" Bash ").unwrap(), Shell::Bash);
    assert_eq!(Shell::parse("ZSH").unwrap(), Shell::Zsh);
    assert_eq!(Shell::parse("powershell").unwrap(), Shell::PowerShell);
    assert_eq!("fish".parse::<Shell>().unwrap(), Shell::Fish);
    assert_eq!(Shell::Elvish.name(), "elvish");
    let err = Shell::parse("tcsh").unwrap_err();
    assert_eq!(
        err.to_string(),
        "invalid shell \"tcsh\" (expected: bash, elvish, fish, powershell, zsh)"
    );
}

#[test]
fn password_is_never_shown() {
    let p = Password::from("hunter2");
    assert_eq!(p.as_str(), "hunter2");
    assert_eq!(p.display_text(), "***password***");
    let mut q: Password = "secret".parse().unwrap();
    q.zeroize();
    assert_eq!(q.as_str(), "");
    let r = Password::new(String::from("x"));
    assert_eq!(r.as_str(), "x");
}

#[test]
fn durations_parse_go_style() {
    assert_eq!(parse_duration("500ms").unwrap(), Duration::from_millis(500));
    assert_eq!(
        parse_duration("4h15m").unwrap(),
        Duration::from_secs(4 * 3600 + 15 * 60)
    );
    assert!(parse_duration("-1s").is_err());
    assert!(parse_duration("bogus").is_err());
    let d = parse_time_delta("-1500ms").unwrap();
    assert_eq!(d, chrono::TimeDelta::milliseconds(-1500));
    assert_eq!(parse_time_delta("2s").unwrap(), chrono::TimeDelta::seconds(2));
    assert!(parse_time_delta("x").is_err());
}

#[test]
fn prefix_stripping_and_identifiers() {
    assert_eq!(strip_prefix("database_host", "database_"), Some("host"));
    assert_eq!(strip_prefix("host", "database_"), None);
    assert_eq!(strip_prefix("data", "database_"), None);
    assert_eq!(IdentString::new("field").as_str(), "field");
}
