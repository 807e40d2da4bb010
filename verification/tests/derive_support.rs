use conf::naming::{
    append_doc_string, make_env, make_env_prefix, make_long, make_long_prefix, make_short, trim,
};

#[test]
fn test_make_long_prefix() {
    let result = make_long_prefix("my_field").unwrap();
    assert_eq!(result, "my-field-");
}

#[test]
fn test_make_env_prefix() {
    let result = make_env_prefix("my_field").unwrap();
    assert_eq!(result, "MY_FIELD_");
}

#[test]
fn make_long_kebab_cases_the_field_name() {
    assert_eq!(make_long("http_listen_addr").unwrap(), "http-listen-addr");
    assert_eq!(make_long(""), None);
}

#[test]
fn make_env_shouty_snake_cases_the_field_name() {
    assert_eq!(make_env("http_listen_addr").unwrap(), "HTTP_LISTEN_ADDR");
    assert_eq!(make_env(""), None);
}

#[test]
fn make_short_takes_the_lowercase_first_letter() {
    assert_eq!(make_short("Verbose"), Some('v'));
    assert_eq!(make_short("port"), Some('p'));
    assert_eq!(make_short(""), None);
}

#[test]
fn trim_removes_surrounding_whitespace() {
    assert_eq!(trim("  a b \t"), "a b");
    assert_eq!(trim("   "), "");
    assert_eq!(trim(""), "");
}

#[test]
fn doc_strings_are_trimmed_per_line_and_appended() {
    let mut description = None;
    append_doc_string(&mut description, " Socket addr to listen to ");
    assert_eq!(description.as_deref(), Some("Socket addr to listen to"));
    append_doc_string(&mut description, "  second line\n   third  ");
    assert_eq!(
        description.as_deref(),
        Some("Socket addr to listen to\nsecond line\nthird")
    );
}
