use conf::derive_attrs::{Attr, AttrArg, AttrValue, GenericArg, GenericArgs, Lit, TypeShape};
use conf::derive_enum::{read_subcommands_enum, EnumItem, VariantFields, VariantInput, VariantItem};
use conf::derive_fields::{FieldInput, FieldItem, FieldKind, ValueParserChoice};
use conf::program_option::ParseType;
use conf::derive_struct::{
    constraint_outcome, plan_constraints, read_conf_struct, ConstraintOutcome, ConstraintPlan,
    FieldConstraint, StructItem,
};

fn key(k: &str) -> AttrArg {
    AttrArg {
        key: k.to_string(),
        value: AttrValue::Absent,
        text: String::new(),
    }
}

fn key_str(k: &str, v: &str) -> AttrArg {
    AttrArg {
        key: k.to_string(),
        value: AttrValue::Lit(Lit::Str(v.to_string())),
        text: format!("{v:?}"),
    }
}

fn key_char(k: &str, c: char) -> AttrArg {
    AttrArg {
        key: k.to_string(),
        value: AttrValue::Lit(Lit::Char(c)),
        text: format!("{c:?}"),
    }
}

fn key_nested(k: &str, items: Vec<AttrArg>) -> AttrArg {
    AttrArg {
        key: k.to_string(),
        value: AttrValue::Nested(items),
        text: String::new(),
    }
}

fn conf(args: Vec<AttrArg>) -> Attr {
    Attr::List("conf".to_string(), args)
}

fn arg(args: Vec<AttrArg>) -> Attr {
    Attr::List("arg".to_string(), args)
}

fn doc(text: &str) -> Attr {
    Attr::NameValue("doc".to_string(), AttrValue::Lit(Lit::Str(text.to_string())))
}

fn plain(name: &str) -> TypeShape {
    TypeShape::Path(name.to_string(), GenericArgs::Plain)
}

fn generic(name: &str, inner: &str) -> TypeShape {
    TypeShape::Path(
        name.to_string(),
        GenericArgs::Angle(vec![GenericArg::Type(Some(inner.to_string()))]),
    )
}

fn field(name: &str, ty: TypeShape, attrs: Vec<Attr>) -> FieldInput {
    FieldInput {
        name: Some(name.to_string()),
        ty,
        attrs,
    }
}

fn read(f: &FieldInput) -> FieldItem {
    match FieldItem::new(f, false) {
        Ok(item) => item,
        Err(e) => panic!("unexpected error {:?}", e.messages),
    }
}

fn error(f: &FieldInput) -> Vec<String> {
    match FieldItem::new(f, false) {
        Ok(_) => panic!("expected an error"),
        Err(e) => e.messages,
    }
}

#[test]
fn short_defaults_to_first_letter() {
    let item = read(&field("url", plain("String"), vec![arg(vec![key("short")])]));
    assert_eq!(item.kind, FieldKind::Parameter);
    assert_eq!(item.options.short_switch, Some('u'));
    let item = read(&field("Url", plain("String"), vec![arg(vec![key("short")])]));
    assert_eq!(item.options.short_switch, Some('u'));
}

#[test]
fn short_can_be_overridden() {
    let item = read(&field("url", plain("String"), vec![arg(vec![key_char("short", 't')])]));
    assert_eq!(item.options.short_switch, Some('t'));
}

#[test]
fn long_and_env_default_to_kebab_and_upper_snake_case() {
    let item = read(&field(
        "my_param",
        plain("String"),
        vec![doc(" The parameter."), arg(vec![key("long"), key("env")])],
    ));
    assert_eq!(item.options.long_switch.as_deref(), Some("my-param"));
    assert_eq!(item.options.env_name.as_deref(), Some("MY_PARAM"));
    assert_eq!(item.options.doc_string.as_deref(), Some("The parameter."));
}

#[test]
fn long_and_env_can_be_overridden() {
    let item = read(&field(
        "url",
        plain("String"),
        vec![arg(vec![key_str("long", "target-url"), key_str("env", "TARGET_URL")])],
    ));
    assert_eq!(item.options.long_switch.as_deref(), Some("target-url"));
    assert_eq!(item.options.env_name.as_deref(), Some("TARGET_URL"));
}

#[test]
fn bool_fields_are_flags_and_signed_numbers_allow_hyphens() {
    let item = read(&field("verbose", plain("bool"), vec![arg(vec![key("short")])]));
    assert_eq!(item.kind, FieldKind::Flag);
    let item = read(&field("offset", plain("i32"), vec![arg(vec![key("long")])]));
    assert!(item.options.allow_hyphen_values);
    let item = read(&field("count", plain("u32"), vec![arg(vec![key("long")])]));
    assert!(!item.options.allow_hyphen_values);
}

#[test]
fn secret_and_defaults() {
    let item = read(&field(
        "password",
        plain("String"),
        vec![arg(vec![key("env"), key("secret"), key_str("default_value", "x")])],
    ));
    assert_eq!(item.options.secret, Some(true));
    assert_eq!(item.options.default_value.as_deref(), Some("x"));
}

#[test]
fn an_option_given_twice_is_refused() {
    let e = error(&field(
        "url",
        plain("String"),
        vec![arg(vec![key("long")]), arg(vec![key("long")])],
    ));
    assert_eq!(e, vec!["long cannot be specified twice", "Earlier specified here"]);
}

#[test]
fn wrong_values_and_unknown_keys_are_refused() {
    assert_eq!(
        error(&field("url", plain("String"), vec![arg(vec![key_str("short", "u")])])),
        vec!["expected character literal"]
    );
    assert_eq!(
        error(&field("url", plain("String"), vec![arg(vec![key("default_value")])])),
        vec!["expected `=`"]
    );
    assert_eq!(
        error(&field("url", plain("String"), vec![arg(vec![key("long"), key("bogus")])])),
        vec!["unrecognized conf parameter option"]
    );
    assert_eq!(
        error(&field("url", plain("bool"), vec![arg(vec![key("long"), key("env_delimiter")])])),
        vec!["unrecognized conf flag option"]
    );
    assert_eq!(
        error(&field("url", plain("String"), vec![Attr::Path("conf".to_string())])),
        vec!["expected attribute arguments in parentheses: #[conf(...)]"]
    );
    assert_eq!(
        error(&field("url", plain("String"), vec![conf(vec![])])),
        vec!["expected nested attribute"]
    );
}

#[test]
fn parameter_combinations_that_cannot_work_are_refused() {
    assert_eq!(
        error(&field("url", plain("String"), vec![])),
        vec!["There is no way for the user to give this parameter a value. Trying using #[arg(short)], #[arg(long)], #[arg(env)], or #[arg(pos)] to specify a switch, positional argument, or an env associated to this value, or specify a default value."]
    );
    // An optional parameter, or one of a structure that reads a document, needs no source.
    assert!(FieldItem::new(&field("url", generic("Option", "String"), vec![]), false).is_ok());
    assert!(FieldItem::new(&field("url", plain("String"), vec![]), true).is_ok());
    let aliases = AttrArg {
        key: "aliases".to_string(),
        value: AttrValue::Array(vec![Lit::Str("u".to_string())]),
        text: "[\"u\"]".to_string(),
    };
    assert_eq!(
        error(&field("url", plain("String"), vec![arg(vec![key("env"), aliases])])),
        vec!["Setting aliases without setting a long-switch is an error, make one of the aliases the primary switch name."]
    );
    assert_eq!(
        error(&field("url", plain("String"), vec![arg(vec![key("pos"), key("short")])])),
        vec!["#[conf(pos)] cannot be used with #[conf(short)]"]
    );
    assert_eq!(
        error(&field(
            "url",
            plain("String"),
            vec![arg(vec![key("long"), key_str("default_value", "a"), key("default")])]
        )),
        vec!["#[conf(default_value)] and #[conf(default)] cannot both be specified"]
    );
    assert_eq!(
        error(&field(
            "url",
            plain("String"),
            vec![arg(vec![
                key("long"),
                key_nested("serde", vec![key_str("try_from", "u8"), key("use_value_parser")])
            ])]
        )),
        vec!["try_from and use_value_parser are mutually exclusive"]
    );
}

#[test]
fn repeat_fields() {
    let item = read(&field(
        "items",
        generic("Vec", "i64"),
        vec![arg(vec![key("repeat"), key("long"), key("env"), key_char("env_delimiter", ';')])],
    ));
    assert_eq!(item.kind, FieldKind::Repeat);
    assert!(item.options.allow_hyphen_values);
    assert_eq!(item.options.env_delimiter, Some(';'));
    assert_eq!(
        error(&field("items", plain("String"), vec![arg(vec![key("repeat")])])),
        vec!["Type of a conf(repeat) field must be Vec<T>"]
    );
    assert_eq!(
        error(&field(
            "paths",
            generic("Vec", "PathBuf"),
            vec![arg(vec![key("repeat"), key("env"), key_char("env_delimiter", 'é')])]
        )),
        vec!["env_delimiter must be an ASCII character when using value_parser_os (or with Vec<PathBuf>/Vec<OsString> types). OsStr uses a platform-specific encoding and only splitting by ASCII is supported."]
    );
    assert_eq!(
        error(&field(
            "items",
            generic("Vec", "String"),
            vec![arg(vec![key("repeat"), key_char("env_delimiter", ';')])]
        )),
        vec!["env_delimiter has no effect if an env variable is not declared"]
    );
}

#[test]
fn flatten_prefixes() {
    let item = read(&field(
        "auth_service",
        plain("AuthConfig"),
        vec![conf(vec![key("flatten"), key("prefix")])],
    ));
    assert_eq!(item.kind, FieldKind::Flatten);
    assert_eq!(item.options.long_prefix.as_deref(), Some("auth-service-"));
    assert_eq!(item.options.env_prefix.as_deref(), Some("AUTH_SERVICE_"));
    let item = read(&field(
        "auth_service",
        plain("AuthConfig"),
        vec![conf(vec![key("flatten"), key_str("prefix", "auth")])],
    ));
    assert_eq!(item.options.long_prefix.as_deref(), Some("auth-"));
    assert_eq!(item.options.env_prefix.as_deref(), Some("AUTH_"));
    let item = read(&field(
        "db",
        generic("Option", "DbConfig"),
        vec![doc(" Database."), conf(vec![key("flatten"), key("help_prefix")])],
    ));
    assert!(item.is_optional_type);
    assert_eq!(item.description_prefix.as_deref(), Some("Database."));
    assert_eq!(
        error(&field(
            "db",
            plain("DbConfig"),
            vec![conf(vec![key("flatten"), key("prefix"), key("env_prefix")])]
        )),
        vec!["env_prefix cannot be specified twice", "Earlier specified here"]
    );
}

#[test]
fn struct_options() {
    let attrs = vec![
        doc(" My program."),
        conf(vec![
            key_str("env_prefix", "ACME_"),
            key_nested("at_most_one_of_fields", vec![key("a"), key("b"), key("c")]),
        ]),
    ];
    let item = match StructItem::new("Config", &attrs) {
        Ok(i) => i,
        Err(e) => panic!("{:?}", e.messages),
    };
    assert_eq!(item.env_prefix.as_deref(), Some("ACME_"));
    assert_eq!(item.doc_string.as_deref(), Some("My program."));
    assert_eq!(item.one_of_fields.len(), 1);
    assert_eq!(item.one_of_fields[0].0, FieldConstraint::AtMostOne);
    assert_eq!(item.one_of_fields[0].1, vec!["a", "b", "c"]);
    let bad = vec![conf(vec![key_nested("one_of_fields", vec![key("a")])])];
    match StructItem::new("Config", &bad) {
        Ok(_) => panic!("expected an error"),
        Err(e) => assert_eq!(
            e.messages,
            vec!["invalid to create a constraint over fewer than two fields"]
        ),
    }
    let fields = vec![
        field("url", plain("String"), vec![arg(vec![key("long")])]),
        field("verbose", plain("bool"), vec![arg(vec![key("short")])]),
    ];
    match read_conf_struct("Config", &attrs, &fields, false) {
        Ok((s, f)) => {
            assert_eq!(s.struct_ident, "Config");
            assert_eq!(f.len(), 2);
            assert_eq!(f[1].kind, FieldKind::Flag);
        }
        Err(e) => panic!("{:?}", e.messages),
    }
}

#[test]
fn subcommand_variants() {
    let variant = VariantInput {
        name: "RunServer".to_string(),
        fields: VariantFields::Unnamed(vec![plain("ServerConfig")]),
        attrs: vec![conf(vec![key_str("alias", "serve")])],
    };
    let item = match VariantItem::new(&variant, "Commands") {
        Ok(i) => i,
        Err(e) => panic!("{:?}", e.messages),
    };
    assert_eq!(item.command_name, "run-server");
    assert_eq!(item.aliases, vec!["serve"]);
    let renamed = VariantInput {
        name: "RunServer".to_string(),
        fields: VariantFields::Unit,
        attrs: vec![conf(vec![key_str("name", "run")])],
    };
    match VariantItem::new(&renamed, "Commands") {
        Ok(i) => assert_eq!(i.command_name, "run"),
        Err(e) => panic!("{:?}", e.messages),
    }
    let two = VariantInput {
        name: "Pair".to_string(),
        fields: VariantFields::Unnamed(vec![plain("A"), plain("B")]),
        attrs: vec![],
    };
    match VariantItem::new(&two, "Commands") {
        Ok(_) => panic!("expected an error"),
        Err(e) => assert_eq!(
            e.messages,
            vec!["Subcommands variant 'Pair' must contain zero or one unnamed fields which implement Conf, found 2"]
        ),
    }
    let named = VariantInput {
        name: "Query".to_string(),
        fields: VariantFields::Named,
        attrs: vec![conf(vec![key_nested("one_of_fields", vec![key("a"), key("b")])])],
    };
    match VariantItem::new(&named, "Commands") {
        Ok(i) => assert_eq!(i.passthrough, vec!["one_of_fields"]),
        Err(e) => panic!("{:?}", e.messages),
    }
    let enum_attrs = vec![conf(vec![key("serde")])];
    match EnumItem::new("Commands", &enum_attrs) {
        Ok(e) => assert!(e.serde),
        Err(e) => panic!("{:?}", e.messages),
    }
    match read_subcommands_enum("Commands", &enum_attrs, &vec![variant, renamed]) {
        Ok((e, v)) => {
            assert_eq!(e.enum_ident, "Commands");
            assert_eq!(v.len(), 2);
        }
        Err(e) => panic!("{:?}", e.messages),
    }
}

#[test]
fn fields_become_program_options() {
    let item = read(&field(
        "my_param",
        plain("String"),
        vec![doc(" A value."), arg(vec![key("long"), key("env"), key_str("default_value", "5")])],
    ));
    let opt = item.program_option().expect("a parameter is one option");
    assert_eq!(opt.id, "my_param");
    assert_eq!(opt.parse_type, ParseType::Parameter);
    assert_eq!(opt.long_form.as_deref(), Some("my-param"));
    assert_eq!(opt.env_form.as_deref(), Some("MY_PARAM"));
    assert_eq!(opt.default_value.as_deref(), Some("5"));
    assert_eq!(opt.description.as_deref(), Some("A value."));
    assert!(!opt.is_required);
    let required = read(&field("url", plain("String"), vec![arg(vec![key("long")])]));
    assert!(required.program_option().unwrap().is_required);
    let flag = read(&field("verbose", plain("bool"), vec![arg(vec![key("short")])]));
    let opt = flag.program_option().unwrap();
    assert_eq!(opt.parse_type, ParseType::Flag);
    assert_eq!(opt.secret, Some(false));
    assert!(!opt.is_required);
    let flat = read(&field(
        "auth_service",
        generic("Option", "AuthConfig"),
        vec![conf(vec![key("flatten"), key("prefix")])],
    ));
    assert!(flat.program_option().is_none());
    let t = flat.flatten_transform().expect("a flattened field");
    assert_eq!(t.id_prefix, "auth_service.");
    assert_eq!(t.long_prefix, "auth-service-");
    assert_eq!(t.env_prefix, "AUTH_SERVICE_");
    assert_eq!(t.description_prefix, "");
    assert!(t.make_optional);
    assert!(flag.flatten_transform().is_none());
}

#[test]
fn constraint_outcomes_follow_their_names() {
    assert_eq!(constraint_outcome(FieldConstraint::ExactlyOne, 0), ConstraintOutcome::TooFew);
    assert_eq!(constraint_outcome(FieldConstraint::ExactlyOne, 1), ConstraintOutcome::Satisfied);
    assert_eq!(constraint_outcome(FieldConstraint::ExactlyOne, 2), ConstraintOutcome::TooMany);
    assert_eq!(constraint_outcome(FieldConstraint::AtMostOne, 0), ConstraintOutcome::Satisfied);
    assert_eq!(constraint_outcome(FieldConstraint::AtMostOne, 3), ConstraintOutcome::TooMany);
    assert_eq!(constraint_outcome(FieldConstraint::AtLeastOne, 0), ConstraintOutcome::TooFew);
    assert_eq!(constraint_outcome(FieldConstraint::AtLeastOne, 5), ConstraintOutcome::Satisfied);
}

#[test]
fn constraints_are_planned_over_their_fields() {
    let attrs = vec![conf(vec![key_nested(
        "at_most_one_of_fields",
        vec![key("a"), key("b"), key("db")],
    )])];
    let fields = vec![
        field("a", plain("bool"), vec![conf(vec![key("short")])]),
        field("b", generic("Option", "String"), vec![conf(vec![key("long")])]),
        field("db", generic("Option", "DbConfig"), vec![conf(vec![key("flatten")])]),
    ];
    let (s, items) = match read_conf_struct("Foo", &attrs, &fields, false) {
        Ok(x) => x,
        Err(e) => panic!("{:?}", e.messages),
    };
    match plan_constraints(&s, &items, &fields) {
        Ok(plans) => {
            assert_eq!(plans.len(), 1);
            assert_eq!(plans[0].kind, FieldConstraint::AtMostOne);
            assert_eq!(plans[0].single_ids, vec!["a", "b"]);
            assert_eq!(plans[0].flattened, vec!["db"]);
        }
        Err(e) => panic!("{:?}", e.messages),
    }
    let names = vec!["a".to_string(), "nope".to_string()];
    match ConstraintPlan::new(&items, &fields, FieldConstraint::ExactlyOne, &names) {
        Ok(_) => panic!("expected an error"),
        Err(e) => assert_eq!(e.messages, vec!["identifier not found in struct"]),
    }
    let with_default = vec![field(
        "n",
        plain("u32"),
        vec![conf(vec![key("long"), key_str("default_value", "1")])],
    )];
    let items2: Vec<FieldItem> = with_default.iter().map(|f| read(f)).collect();
    match ConstraintPlan::new(&items2, &with_default, FieldConstraint::ExactlyOne, &vec!["n".to_string()]) {
        Ok(_) => panic!("expected an error"),
        Err(e) => assert_eq!(
            e.messages,
            vec!["using one_of_fields constraint with a field that has a default_value is invalid, since it will always be present."]
        ),
    }
    let plain_field = vec![field("n", plain("u32"), vec![conf(vec![key("long")])])];
    let items3: Vec<FieldItem> = plain_field.iter().map(|f| read(f)).collect();
    match ConstraintPlan::new(&items3, &plain_field, FieldConstraint::ExactlyOne, &vec!["n".to_string()]) {
        Ok(_) => panic!("expected an error"),
        Err(e) => assert_eq!(
            e.messages,
            vec!["field must be bool, Option<T>, or Vec<T> to use with one_of_fields constraint"]
        ),
    }
}

#[test]
fn value_parsers_delimiters_and_serde_names() {
    let path = read(&field("file", generic("Option", "PathBuf"), vec![arg(vec![key("long")])]));
    assert!(matches!(path.value_parser(), Some(ValueParserChoice::PathBuf)));
    let s = read(&field("name", plain("String"), vec![arg(vec![key("long")])]));
    assert!(matches!(s.value_parser(), Some(ValueParserChoice::FromStr)));
    let explicit = AttrArg {
        key: "value_parser".to_string(),
        value: AttrValue::Expr,
        text: "parse_it".to_string(),
    };
    let e = read(&field("name", plain("PathBuf"), vec![arg(vec![key("long"), explicit])]));
    match e.value_parser() {
        Some(ValueParserChoice::Str(t)) => assert_eq!(t, "parse_it"),
        _ => panic!("expected the explicit parser"),
    }
    let flag = read(&field("v", plain("bool"), vec![arg(vec![key("short")])]));
    assert!(flag.value_parser().is_none());
    assert!(flag.has_cli_or_env_source());

    let list = read(&field(
        "items",
        generic("Vec", "OsString"),
        vec![arg(vec![key("repeat"), key("env")])],
    ));
    assert!(matches!(list.value_parser(), Some(ValueParserChoice::OsString)));
    assert_eq!(list.env_delimiter(), Some(','));
    let nodelim = read(&field(
        "items",
        generic("Vec", "String"),
        vec![arg(vec![key("repeat"), key("env"), key("no_env_delimiter")])],
    ));
    assert_eq!(nodelim.env_delimiter(), None);

    let renamed = read(&field(
        "my_field",
        plain("String"),
        vec![arg(vec![
            key("long"),
            key_nested("serde", vec![key_str("rename", "other"), key_str("alias", "x")]),
        ])],
    ));
    assert_eq!(renamed.serde_name(), "other");
    assert_eq!(renamed.serde_aliases(), vec!["x"]);
    assert!(!renamed.serde_skip());
    assert_eq!(s.serde_name(), "name");

    let variant = VariantInput {
        name: "RunServer".to_string(),
        fields: VariantFields::Unit,
        attrs: vec![conf(vec![key_str("alias", "serve"), key_str("alias", "s")])],
    };
    let v = match VariantItem::new(&variant, "Commands") {
        Ok(v) => v,
        Err(e) => panic!("{:?}", e.messages),
    };
    assert_eq!(v.serde_name(), "run_server");
    assert_eq!(v.all_command_names(), vec!["run-server", "serve", "s"]);
    assert_eq!(v.generated_struct_name(), "__Commands_RunServer");
    assert_eq!(v.display_name(), "Commands::RunServer");
}
