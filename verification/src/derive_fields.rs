//! How the `Conf` derive reads the fields of a structure: each field is a flag, a parameter, a
//! repeat parameter, a flattened structure or a subcommands field, and its `#[conf(...)]`
//! (or `#[arg(...)]`) attributes set options that its kind accepts, each at most once.
//! Combinations of options that cannot work are refused with an error.
use vstd::prelude::*;
use crate::derive_attrs::{
    Attr, AttrArg, AttrValue, DeriveError, Messages, TypeShape, attr_name, derive_error,
    doc_step, err_view, expected_comma, get_attr_name, has_eq, marker, messages_view, not_list,
    not_list_error, opt_bool, opt_char, opt_str, req_char, req_char_array, req_expr, req_str,
    req_str_array, spec_doc_step, spec_marker, spec_opt_bool, spec_opt_char, spec_opt_str,
    spec_req_char, spec_req_char_array, spec_req_expr, spec_req_str, spec_req_str_array,
    spec_type_is_generic, spec_type_is_signed_number, spec_name_is_signed_number, twice,
    twice_error, type_is_generic, type_is_signed_number, name_is_signed_number,
};
use crate::naming::{kebab_case, make_env, make_env_prefix, make_long, make_long_prefix, make_short, shouty_snake_case};
use crate::lazybuf::FlattenTransform;
use crate::program_option::{
    ParseType, ProgramOption, ProgramOptionView, clone_opt_string, clone_strings, opt_view,
};
use crate::text::{lowercase, str_eq, string_of};

verus! {

/// The kind of a field of a `Conf` structure.
#[derive(Clone, Copy, Debug, PartialEq, Eq, Structural)]
pub enum FieldKind {
    /// A switch that is present or absent.
    Flag,
    /// A value.
    Parameter,
    /// A list of values.
    Repeat,
    /// A structure whose options are flattened into this one.
    Flatten,
    /// A choice of subcommands.
    Subcommands,
}

/// The options of a `serde(...)` item on a field.
pub struct SerdeOptions {
    pub rename: Option<String>,
    pub aliases: Vec<String>,
    pub skip: bool,
    pub use_value_parser: bool,
    pub deserialize_with: Option<String>,
    pub try_from: Option<String>,
}

/// The content of `SerdeOptions`.
pub struct SerdeView {
    pub rename: Option<Seq<char>>,
    pub aliases: Seq<Seq<char>>,
    pub skip: bool,
    pub use_value_parser: bool,
    pub deserialize_with: Option<Seq<char>>,
    pub try_from: Option<Seq<char>>,
}

/// The characters of each string of a list.
pub open spec fn strs(v: Seq<String>) -> Seq<Seq<char>> {
    v.map_values(|s: String| s@)
}

/// The characters of each string of an optional list.
pub open spec fn opt_strs(v: Option<Vec<String>>) -> Option<Seq<Seq<char>>> {
    match v {
        Some(l) => Some(strs(l@)),
        None => None,
    }
}

impl View for SerdeOptions {
    type V = SerdeView;

    open spec fn view(&self) -> SerdeView {
        SerdeView {
            rename: opt_view(self.rename),
            aliases: strs(self.aliases@),
            skip: self.skip,
            use_value_parser: self.use_value_parser,
            deserialize_with: opt_view(self.deserialize_with),
            try_from: opt_view(self.try_from),
        }
    }
}

/// The options read from a field's attributes. Each kind of field accepts some of them; the
/// others keep their initial values.
pub struct FieldOptions {
    pub short_switch: Option<char>,
    pub long_switch: Option<String>,
    pub aliases: Option<Vec<String>>,
    pub env_name: Option<String>,
    pub env_aliases: Option<Vec<String>>,
    pub doc_string: Option<String>,
    pub allow_hyphen_values: bool,
    pub secret: Option<bool>,
    pub default_value: Option<String>,
    pub default_value_expr: Option<String>,
    pub default_help_str: Option<String>,
    pub value_parser: Option<String>,
    pub value_parser_os: Option<String>,
    pub env_delimiter: Option<char>,
    pub no_env_delimiter: bool,
    pub is_positional: bool,
    pub serde: Option<SerdeOptions>,
    /// The `test(...)` item: whether it asks to skip checking the default value.
    pub test: Option<bool>,
    pub long_prefix: Option<String>,
    pub env_prefix: Option<String>,
    /// `help_prefix`, with its explicit text if it has one.
    pub help_prefix: Option<Option<String>>,
    pub skip_short: Option<Vec<char>>,
}

/// The content of `FieldOptions`.
pub struct OptionsView {
    pub short_switch: Option<char>,
    pub long_switch: Option<Seq<char>>,
    pub aliases: Option<Seq<Seq<char>>>,
    pub env_name: Option<Seq<char>>,
    pub env_aliases: Option<Seq<Seq<char>>>,
    pub doc_string: Option<Seq<char>>,
    pub allow_hyphen_values: bool,
    pub secret: Option<bool>,
    pub default_value: Option<Seq<char>>,
    pub default_value_expr: Option<Seq<char>>,
    pub default_help_str: Option<Seq<char>>,
    pub value_parser: Option<Seq<char>>,
    pub value_parser_os: Option<Seq<char>>,
    pub env_delimiter: Option<char>,
    pub no_env_delimiter: bool,
    pub is_positional: bool,
    pub serde: Option<SerdeView>,
    pub test: Option<bool>,
    pub long_prefix: Option<Seq<char>>,
    pub env_prefix: Option<Seq<char>>,
    pub help_prefix: Option<Option<Seq<char>>>,
    pub skip_short: Option<Seq<char>>,
}

impl View for FieldOptions {
    type V = OptionsView;

    open spec fn view(&self) -> OptionsView {
        OptionsView {
            short_switch: self.short_switch,
            long_switch: opt_view(self.long_switch),
            aliases: opt_strs(self.aliases),
            env_name: opt_view(self.env_name),
            env_aliases: opt_strs(self.env_aliases),
            doc_string: opt_view(self.doc_string),
            allow_hyphen_values: self.allow_hyphen_values,
            secret: self.secret,
            default_value: opt_view(self.default_value),
            default_value_expr: opt_view(self.default_value_expr),
            default_help_str: opt_view(self.default_help_str),
            value_parser: opt_view(self.value_parser),
            value_parser_os: opt_view(self.value_parser_os),
            env_delimiter: self.env_delimiter,
            no_env_delimiter: self.no_env_delimiter,
            is_positional: self.is_positional,
            serde: match self.serde {
                Some(s) => Some(s@),
                None => None,
            },
            test: self.test,
            long_prefix: opt_view(self.long_prefix),
            env_prefix: opt_view(self.env_prefix),
            help_prefix: match self.help_prefix {
                Some(h) => Some(opt_view(h)),
                None => None,
            },
            skip_short: match self.skip_short {
                Some(v) => Some(v@),
                None => None,
            },
        }
    }
}

/// No options set; hyphen values allowed as given.
pub open spec fn initial_options(allow_hyphen_values: bool) -> OptionsView {
    OptionsView {
        short_switch: None,
        long_switch: None,
        aliases: None,
        env_name: None,
        env_aliases: None,
        doc_string: None,
        allow_hyphen_values,
        secret: None,
        default_value: None,
        default_value_expr: None,
        default_help_str: None,
        value_parser: None,
        value_parser_os: None,
        env_delimiter: None,
        no_env_delimiter: false,
        is_positional: false,
        serde: None,
        test: None,
        long_prefix: None,
        env_prefix: None,
        help_prefix: None,
        skip_short: None,
    }
}

fn new_options(allow_hyphen_values: bool) -> (r: FieldOptions)
    ensures
        r@ == initial_options(allow_hyphen_values),
{
    FieldOptions {
        short_switch: None,
        long_switch: None,
        aliases: None,
        env_name: None,
        env_aliases: None,
        doc_string: None,
        allow_hyphen_values,
        secret: None,
        default_value: None,
        default_value_expr: None,
        default_help_str: None,
        value_parser: None,
        value_parser_os: None,
        env_delimiter: None,
        no_env_delimiter: false,
        is_positional: false,
        serde: None,
        test: None,
        long_prefix: None,
        env_prefix: None,
        help_prefix: None,
        skip_short: None,
    }
}

/// The default short switch of a field: the first character of its lowercase name.
pub open spec fn spec_make_short(name: Seq<char>) -> Option<char> {
    if name.len() == 0 {
        None
    } else {
        Some(lowercase(name)[0])
    }
}

/// The default long switch of a field: its name in kebab case.
pub open spec fn spec_make_long(name: Seq<char>) -> Option<Seq<char>> {
    if name.len() == 0 {
        None
    } else {
        Some(kebab_case(name))
    }
}

/// The default environment variable of a field: its name in shouty snake case.
pub open spec fn spec_make_env(name: Seq<char>) -> Option<Seq<char>> {
    if name.len() == 0 {
        None
    } else {
        Some(shouty_snake_case(name))
    }
}

/// The keyword that selects a kind of field.
pub open spec fn kind_keyword(kind: FieldKind) -> Seq<char> {
    match kind {
        FieldKind::Flag => "flag"@,
        FieldKind::Parameter => "parameter"@,
        FieldKind::Repeat => "repeat"@,
        FieldKind::Flatten => "flatten"@,
        FieldKind::Subcommands => "subcommands"@,
    }
}

/// The error for a key that a kind of field does not accept.
pub open spec fn unrecognized(kind: FieldKind) -> Seq<char> {
    match kind {
        FieldKind::Flag => "unrecognized conf flag option"@,
        FieldKind::Parameter => "unrecognized conf parameter option"@,
        FieldKind::Repeat => "unrecognized conf repeat option"@,
        FieldKind::Flatten => "unrecognized conf flatten option"@,
        FieldKind::Subcommands => "unrecognized conf subcommands option"@,
    }
}

fn kind_keyword_str(kind: FieldKind) -> (r: &'static str)
    ensures
        r@ == kind_keyword(kind),
{
    match kind {
        FieldKind::Flag => "flag",
        FieldKind::Parameter => "parameter",
        FieldKind::Repeat => "repeat",
        FieldKind::Flatten => "flatten",
        FieldKind::Subcommands => "subcommands",
    }
}

fn unrecognized_str(kind: FieldKind) -> (r: &'static str)
    ensures
        r@ == unrecognized(kind),
{
    match kind {
        FieldKind::Flag => "unrecognized conf flag option",
        FieldKind::Parameter => "unrecognized conf parameter option",
        FieldKind::Repeat => "unrecognized conf repeat option",
        FieldKind::Flatten => "unrecognized conf flatten option",
        FieldKind::Subcommands => "unrecognized conf subcommands option",
    }
}

/// Whether a kind of field has command-line switches and environment variables.
pub open spec fn has_switches(kind: FieldKind) -> bool {
    kind == FieldKind::Flag || kind == FieldKind::Parameter || kind == FieldKind::Repeat
}

/// An option set only once: the value, or the error if it was set before.
pub open spec fn set_once<T>(key: Seq<char>, current: Option<T>, value: Option<T>) -> Result<Option<T>, Messages> {
    if current is Some {
        Err(twice_error(key))
    } else {
        Ok(value)
    }
}

/// A switch or environment option (`short`, `long`, `aliases`, `env`, `env_aliases`) of a
/// field named `name`, or none for another key.
pub open spec fn spec_switch_arg(name: Seq<char>, st: OptionsView, arg: AttrArg) -> Option<
    Result<OptionsView, Messages>,
> {
    let key = arg.key@;
    if key == "short"@ {
        Some(
            match spec_opt_char(arg.value) {
                Err(e) => Err(e),
                Ok(c) => match set_once(
                    key,
                    st.short_switch,
                    if c is Some {
                        c
                    } else {
                        spec_make_short(name)
                    },
                ) {
                    Err(e) => Err(e),
                    Ok(v) => Ok(OptionsView { short_switch: v, ..st }),
                },
            },
        )
    } else if key == "long"@ {
        Some(
            match spec_opt_str(arg.value) {
                Err(e) => Err(e),
                Ok(s) => match set_once(
                    key,
                    st.long_switch,
                    if s is Some {
                        s
                    } else {
                        spec_make_long(name)
                    },
                ) {
                    Err(e) => Err(e),
                    Ok(v) => Ok(OptionsView { long_switch: v, ..st }),
                },
            },
        )
    } else if key == "aliases"@ {
        Some(
            match spec_req_str_array(arg.value) {
                Err(e) => Err(e),
                Ok(a) => match set_once(key, st.aliases, Some(a)) {
                    Err(e) => Err(e),
                    Ok(v) => Ok(OptionsView { aliases: v, ..st }),
                },
            },
        )
    } else if key == "env"@ {
        Some(
            match spec_opt_str(arg.value) {
                Err(e) => Err(e),
                Ok(s) => match set_once(
                    key,
                    st.env_name,
                    if s is Some {
                        s
                    } else {
                        spec_make_env(name)
                    },
                ) {
                    Err(e) => Err(e),
                    Ok(v) => Ok(OptionsView { env_name: v, ..st }),
                },
            },
        )
    } else if key == "env_aliases"@ {
        Some(
            match spec_req_str_array(arg.value) {
                Err(e) => Err(e),
                Ok(a) => match set_once(key, st.env_aliases, Some(a)) {
                    Err(e) => Err(e),
                    Ok(v) => Ok(OptionsView { env_aliases: v, ..st }),
                },
            },
        )
    } else {
        None
    }
}

/// The result of the switch step as an exec result.
pub open spec fn step_view(r: Result<(), DeriveError>, after: OptionsView) -> Result<OptionsView, Messages> {
    match r {
        Ok(_) => Ok(after),
        Err(e) => Err(messages_view(e)),
    }
}

fn switch_arg(name: &str, st: &mut FieldOptions, arg: &AttrArg) -> (r: Option<Result<(), DeriveError>>)
    ensures
        match r {
            None => spec_switch_arg(name@, old(st)@, *arg) is None && *final(st) == *old(st),
            Some(x) => spec_switch_arg(name@, old(st)@, *arg) == Some(step_view(x, final(st)@)),
        },
{
    let key = arg.key.as_str();
    if str_eq(key, "short") {
        let c = match opt_char(&arg.value) {
            Err(e) => return Some(Err(e)),
            Ok(c) => c,
        };
        if st.short_switch.is_some() {
            return Some(Err(twice(key)));
        }
        st.short_switch = if c.is_some() { c } else { make_short(name) };
        Some(Ok(()))
    } else if str_eq(key, "long") {
        let s = match opt_str(&arg.value) {
            Err(e) => return Some(Err(e)),
            Ok(s) => s,
        };
        if st.long_switch.is_some() {
            return Some(Err(twice(key)));
        }
        st.long_switch = if s.is_some() { s } else { make_long(name) };
        Some(Ok(()))
    } else if str_eq(key, "aliases") {
        let a = match req_str_array(&arg.value) {
            Err(e) => return Some(Err(e)),
            Ok(a) => a,
        };
        if st.aliases.is_some() {
            return Some(Err(twice(key)));
        }
        st.aliases = Some(a);
        Some(Ok(()))
    } else if str_eq(key, "env") {
        let s = match opt_str(&arg.value) {
            Err(e) => return Some(Err(e)),
            Ok(s) => s,
        };
        if st.env_name.is_some() {
            return Some(Err(twice(key)));
        }
        st.env_name = if s.is_some() { s } else { make_env(name) };
        Some(Ok(()))
    } else if str_eq(key, "env_aliases") {
        let a = match req_str_array(&arg.value) {
            Err(e) => return Some(Err(e)),
            Ok(a) => a,
        };
        if st.env_aliases.is_some() {
            return Some(Err(twice(key)));
        }
        st.env_aliases = Some(a);
        Some(Ok(()))
    } else {
        None
    }
}

/// `st`, unless a value follows a key that takes none (`expected ,`).
pub open spec fn then_comma<T>(v: AttrValue, st: T) -> Result<T, Messages> {
    if has_eq(v) {
        Err(seq![expected_comma()])
    } else {
        Ok(st)
    }
}

/// The message for empty parentheses.
pub open spec fn expected_nested() -> Seq<char> {
    "expected nested attribute"@
}

/// The message for parentheses that do not hold nested items.
pub open spec fn unexpected_token() -> Seq<char> {
    "unexpected token in nested attribute, expected ident"@
}

/// No serde options.
pub open spec fn empty_serde() -> SerdeView {
    SerdeView {
        rename: None,
        aliases: Seq::empty(),
        skip: false,
        use_value_parser: false,
        deserialize_with: None,
        try_from: None,
    }
}

/// One item of a `serde(...)` option of a field of this kind.
pub open spec fn spec_serde_arg(kind: FieldKind, st: SerdeView, arg: AttrArg) -> Result<SerdeView, Messages> {
    let key = arg.key@;
    let v = arg.value;
    let values = kind == FieldKind::Parameter || kind == FieldKind::Repeat;
    if key == "skip"@ {
        then_comma(v, SerdeView { skip: true, ..st })
    } else if key == "rename"@ && kind != FieldKind::Subcommands {
        match spec_req_str(v) {
            Err(e) => Err(e),
            Ok(n) => match set_once(key, st.rename, Some(n)) {
                Err(e) => Err(e),
                Ok(x) => Ok(SerdeView { rename: x, ..st }),
            },
        }
    } else if key == "alias"@ && values {
        match spec_req_str(v) {
            Err(e) => Err(e),
            Ok(n) => Ok(SerdeView { aliases: st.aliases.push(n), ..st }),
        }
    } else if key == "use_value_parser"@ && kind == FieldKind::Parameter {
        if st.use_value_parser {
            Err(twice_error(key))
        } else {
            then_comma(v, SerdeView { use_value_parser: true, ..st })
        }
    } else if key == "use_value_parser"@ && kind == FieldKind::Repeat {
        then_comma(v, SerdeView { use_value_parser: true, ..st })
    } else if key == "deserialize_with"@ && values {
        match spec_req_str(v) {
            Err(e) => Err(e),
            Ok(n) => match set_once(key, st.deserialize_with, Some(n)) {
                Err(e) => Err(e),
                Ok(x) => Ok(SerdeView { deserialize_with: x, ..st }),
            },
        }
    } else if key == "try_from"@ && values {
        match spec_req_str(v) {
            Err(e) => Err(e),
            Ok(n) => match set_once(key, st.try_from, Some(n)) {
                Err(e) => Err(e),
                Ok(x) => Ok(SerdeView { try_from: x, ..st }),
            },
        }
    } else {
        Err(seq!["unrecognized conf(serde) option"@])
    }
}

/// The items of a `serde(...)` option from position `i` on.
pub open spec fn spec_serde_args(kind: FieldKind, st: SerdeView, items: Seq<AttrArg>, i: int) -> Result<
    SerdeView,
    Messages,
>
    decreases items.len() - i,
{
    if i >= items.len() {
        Ok(st)
    } else {
        match spec_serde_arg(kind, st, items[i]) {
            Err(e) => Err(e),
            Ok(s) => spec_serde_args(kind, s, items, i + 1),
        }
    }
}

/// The options of a `serde` option that cannot go together.
pub open spec fn spec_serde_check(st: SerdeView) -> Result<SerdeView, Messages> {
    if st.deserialize_with is Some && st.use_value_parser {
        Err(seq!["deserialize_with and use_value_parser are mutually exclusive"@])
    } else if st.try_from is Some && st.use_value_parser {
        Err(seq!["try_from and use_value_parser are mutually exclusive"@])
    } else if st.try_from is Some && st.deserialize_with is Some {
        Err(seq!["try_from and deserialize_with are mutually exclusive"@])
    } else {
        Ok(st)
    }
}

/// The `serde` option of a field of this kind, from what follows the key.
pub open spec fn spec_serde_item(kind: FieldKind, v: AttrValue) -> Result<SerdeView, Messages> {
    match v {
        AttrValue::Nested(items) => if items@.len() == 0 {
            Err(seq![expected_nested()])
        } else {
            match spec_serde_args(kind, empty_serde(), items@, 0) {
                Err(e) => Err(e),
                Ok(s) => spec_serde_check(s),
            }
        },
        AttrValue::ParenExpr => Err(seq![unexpected_token()]),
        _ => spec_serde_check(empty_serde()),
    }
}

/// The items of a `test(...)` option from position `i` on: whether it asks to skip checking
/// the default value.
pub open spec fn spec_test_args(skip: bool, items: Seq<AttrArg>, i: int) -> Result<bool, Messages>
    decreases items.len() - i,
{
    if i >= items.len() {
        Ok(skip)
    } else if items[i].key@ == "skip_default_value"@ {
        match then_comma(items[i].value, true) {
            Err(e) => Err(e),
            Ok(s) => spec_test_args(s, items, i + 1),
        }
    } else {
        Err(seq!["unrecognized conf(test) option"@])
    }
}

/// The `test` option of a parameter, from what follows the key.
pub open spec fn spec_test_item(v: AttrValue) -> Result<bool, Messages> {
    match v {
        AttrValue::Nested(items) => if items@.len() == 0 {
            Err(seq![expected_nested()])
        } else {
            spec_test_args(false, items@, 0)
        },
        AttrValue::ParenExpr => Err(seq![unexpected_token()]),
        _ => Ok(false),
    }
}

fn comma_check(v: &AttrValue) -> (r: Result<(), DeriveError>)
    ensures
        match r {
            Ok(_) => !has_eq(*v),
            Err(e) => has_eq(*v) && messages_view(e) == seq![expected_comma()],
        },
{
    match marker(v) {
        Ok(_) => Ok(()),
        Err(e) => Err(e),
    }
}

fn serde_arg(kind: FieldKind, st: &mut SerdeOptions, arg: &AttrArg) -> (r: Result<(), DeriveError>)
    ensures
        match r {
            Ok(_) => spec_serde_arg(kind, old(st)@, *arg) == Ok::<SerdeView, Messages>(final(st)@),
            Err(e) => spec_serde_arg(kind, old(st)@, *arg) == Err::<SerdeView, Messages>(
                messages_view(e),
            ),
        },
{
    let key = arg.key.as_str();
    let v = &arg.value;
    let values = kind == FieldKind::Parameter || kind == FieldKind::Repeat;
    if str_eq(key, "skip") {
        st.skip = true;
        comma_check(v)
    } else if str_eq(key, "rename") && kind != FieldKind::Subcommands {
        let n = req_str(v)?;
        if st.rename.is_some() {
            return Err(twice(key));
        }
        st.rename = Some(n);
        Ok(())
    } else if str_eq(key, "alias") && values {
        let n = req_str(v)?;
        let ghost before = st.aliases@;
        st.aliases.push(n);
        assert(strs(st.aliases@) =~= strs(before).push(arg.value->Lit_0->Str_0@));
        Ok(())
    } else if str_eq(key, "use_value_parser") && kind == FieldKind::Parameter {
        if st.use_value_parser {
            return Err(twice(key));
        }
        st.use_value_parser = true;
        comma_check(v)
    } else if str_eq(key, "use_value_parser") && kind == FieldKind::Repeat {
        st.use_value_parser = true;
        comma_check(v)
    } else if str_eq(key, "deserialize_with") && values {
        let n = req_str(v)?;
        if st.deserialize_with.is_some() {
            return Err(twice(key));
        }
        st.deserialize_with = Some(n);
        Ok(())
    } else if str_eq(key, "try_from") && values {
        let n = req_str(v)?;
        if st.try_from.is_some() {
            return Err(twice(key));
        }
        st.try_from = Some(n);
        Ok(())
    } else {
        Err(derive_error("unrecognized conf(serde) option"))
    }
}

fn serde_item(kind: FieldKind, v: &AttrValue) -> (r: Result<SerdeOptions, DeriveError>)
    ensures
        match r {
            Ok(s) => spec_serde_item(kind, *v) == Ok::<SerdeView, Messages>(s@),
            Err(e) => spec_serde_item(kind, *v) == Err::<SerdeView, Messages>(messages_view(e)),
        },
{
    let mut st = SerdeOptions {
        rename: None,
        aliases: Vec::new(),
        skip: false,
        use_value_parser: false,
        deserialize_with: None,
        try_from: None,
    };
    assert(strs(st.aliases@) =~= Seq::<Seq<char>>::empty());
    assert(st@ =~= empty_serde());
    match v {
        AttrValue::Nested(items) => {
            let n = items.len();
            if n == 0 {
                return Err(derive_error("expected nested attribute"));
            }
            let mut i: usize = 0;
            while i < n
                invariant
                    n == items@.len(),
                    *v == AttrValue::Nested(*items),
                    i <= n,
                    spec_serde_args(kind, empty_serde(), items@, 0) == spec_serde_args(
                        kind,
                        st@,
                        items@,
                        i as int,
                    ),
                decreases n - i,
            {
                serde_arg(kind, &mut st, &items[i])?;
                i = i + 1;
            }
        },
        AttrValue::ParenExpr => {
            return Err(derive_error("unexpected token in nested attribute, expected ident"));
        },
        _ => {},
    }
    if st.deserialize_with.is_some() && st.use_value_parser {
        return Err(derive_error("deserialize_with and use_value_parser are mutually exclusive"));
    }
    if st.try_from.is_some() && st.use_value_parser {
        return Err(derive_error("try_from and use_value_parser are mutually exclusive"));
    }
    if st.try_from.is_some() && st.deserialize_with.is_some() {
        return Err(derive_error("try_from and deserialize_with are mutually exclusive"));
    }
    Ok(st)
}

fn test_item(v: &AttrValue) -> (r: Result<bool, DeriveError>)
    ensures
        match r {
            Ok(b) => spec_test_item(*v) == Ok::<bool, Messages>(b),
            Err(e) => spec_test_item(*v) == Err::<bool, Messages>(messages_view(e)),
        },
{
    match v {
        AttrValue::Nested(items) => {
            let n = items.len();
            if n == 0 {
                return Err(derive_error("expected nested attribute"));
            }
            let mut skip = false;
            let mut i: usize = 0;
            while i < n
                invariant
                    n == items@.len(),
                    *v == AttrValue::Nested(*items),
                    i <= n,
                    spec_test_args(false, items@, 0) == spec_test_args(skip, items@, i as int),
                decreases n - i,
            {
                if str_eq(items[i].key.as_str(), "skip_default_value") {
                    comma_check(&items[i].value)?;
                    skip = true;
                } else {
                    return Err(derive_error("unrecognized conf(test) option"));
                }
                i = i + 1;
            }
            Ok(skip)
        },
        AttrValue::ParenExpr => Err(
            derive_error("unexpected token in nested attribute, expected ident"),
        ),
        _ => Ok(false),
    }
}

/// The default long-switch prefix of a flattened field: its name in kebab case, then `-`.
pub open spec fn spec_long_prefix(name: Seq<char>) -> Seq<char> {
    kebab_case(name) + "-"@
}

/// The default env prefix of a flattened field: its name in shouty snake case, then `_`.
pub open spec fn spec_env_prefix(name: Seq<char>) -> Seq<char> {
    shouty_snake_case(name) + "_"@
}

/// One item of a `#[conf(...)]` attribute on a field of this kind named `name`: the options
/// after it, or the error it causes. Each option can be given once; a key that the kind does
/// not accept is an error.
pub open spec fn spec_field_arg(kind: FieldKind, name: Seq<char>, st: OptionsView, arg: AttrArg) -> Result<
    OptionsView,
    Messages,
> {
    let key = arg.key@;
    let v = arg.value;
    let values = kind == FieldKind::Parameter || kind == FieldKind::Repeat;
    if key == kind_keyword(kind) {
        then_comma(v, st)
    } else if has_switches(kind) && spec_switch_arg(name, st, arg) is Some {
        spec_switch_arg(name, st, arg).unwrap()
    } else if kind == FieldKind::Parameter && key == "default_value"@ {
        match spec_req_str(v) {
            Err(e) => Err(e),
            Ok(d) => match set_once(key, st.default_value, Some(d)) {
                Err(e) => Err(e),
                Ok(x) => Ok(OptionsView { default_value: x, ..st }),
            },
        }
    } else if kind == FieldKind::Parameter && key == "default_help_str"@ {
        match spec_req_str(v) {
            Err(e) => Err(e),
            Ok(d) => match set_once(key, st.default_help_str, Some(d)) {
                Err(e) => Err(e),
                Ok(x) => Ok(OptionsView { default_help_str: x, ..st }),
            },
        }
    } else if kind == FieldKind::Parameter && key == "default"@ {
        let expr = if v is Nested || v is ParenExpr {
            arg.text@
        } else {
            "Default::default()"@
        };
        match set_once(key, st.default_value_expr, Some(expr)) {
            Err(e) => Err(e),
            Ok(x) => then_comma(v, OptionsView { default_value_expr: x, ..st }),
        }
    } else if values && key == "value_parser"@ {
        match spec_req_expr(arg) {
            Err(e) => Err(e),
            Ok(x) => match set_once(key, st.value_parser, Some(x)) {
                Err(e) => Err(e),
                Ok(y) => Ok(OptionsView { value_parser: y, ..st }),
            },
        }
    } else if values && key == "value_parser_os"@ {
        match spec_req_expr(arg) {
            Err(e) => Err(e),
            Ok(x) => match set_once(key, st.value_parser_os, Some(x)) {
                Err(e) => Err(e),
                Ok(y) => Ok(OptionsView { value_parser_os: y, ..st }),
            },
        }
    } else if values && key == "allow_hyphen_values"@ {
        then_comma(v, OptionsView { allow_hyphen_values: true, ..st })
    } else if values && key == "secret"@ {
        match spec_opt_bool(v) {
            Err(e) => Err(e),
            Ok(b) => match set_once(
                key,
                st.secret,
                Some(
                    match b {
                        Some(x) => x,
                        None => true,
                    },
                ),
            ) {
                Err(e) => Err(e),
                Ok(x) => Ok(OptionsView { secret: x, ..st }),
            },
        }
    } else if values && key == "pos"@ {
        then_comma(v, OptionsView { is_positional: true, ..st })
    } else if kind == FieldKind::Repeat && key == "env_delimiter"@ {
        match spec_req_char(v) {
            Err(e) => Err(e),
            Ok(c) => match set_once(key, st.env_delimiter, Some(c)) {
                Err(e) => Err(e),
                Ok(x) => Ok(OptionsView { env_delimiter: x, ..st }),
            },
        }
    } else if kind == FieldKind::Repeat && key == "no_env_delimiter"@ {
        then_comma(v, OptionsView { no_env_delimiter: true, ..st })
    } else if kind == FieldKind::Parameter && key == "test"@ {
        match spec_test_item(v) {
            Err(e) => Err(e),
            Ok(t) => match set_once(key, st.test, Some(t)) {
                Err(e) => Err(e),
                Ok(x) => then_comma(v, OptionsView { test: x, ..st }),
            },
        }
    } else if kind == FieldKind::Flatten && key == "long_prefix"@ {
        match spec_opt_str(v) {
            Err(e) => Err(e),
            Ok(p) => match set_once(
                key,
                st.long_prefix,
                Some(
                    match p {
                        Some(x) => x,
                        None => spec_long_prefix(name),
                    },
                ),
            ) {
                Err(e) => Err(e),
                Ok(x) => Ok(OptionsView { long_prefix: x, ..st }),
            },
        }
    } else if kind == FieldKind::Flatten && key == "env_prefix"@ {
        match spec_opt_str(v) {
            Err(e) => Err(e),
            Ok(p) => match set_once(
                key,
                st.env_prefix,
                Some(
                    match p {
                        Some(x) => x,
                        None => spec_env_prefix(name),
                    },
                ),
            ) {
                Err(e) => Err(e),
                Ok(x) => Ok(OptionsView { env_prefix: x, ..st }),
            },
        }
    } else if kind == FieldKind::Flatten && key == "help_prefix"@ {
        match spec_opt_str(v) {
            Err(e) => Err(e),
            Ok(p) => match set_once(key, st.help_prefix, Some(p)) {
                Err(e) => Err(e),
                Ok(x) => Ok(OptionsView { help_prefix: x, ..st }),
            },
        }
    } else if kind == FieldKind::Flatten && key == "prefix"@ {
        match spec_opt_str(v) {
            Err(e) => Err(e),
            Ok(p) => {
                let base = match p {
                    Some(x) => x,
                    None => name,
                };
                match set_once(key, st.long_prefix, Some(spec_long_prefix(base))) {
                    Err(e) => Err(e),
                    Ok(l) => match set_once(key, st.env_prefix, Some(spec_env_prefix(base))) {
                        Err(e) => Err(e),
                        Ok(n) => Ok(OptionsView { long_prefix: l, env_prefix: n, ..st }),
                    },
                }
            },
        }
    } else if kind == FieldKind::Flatten && key == "skip_short"@ {
        match spec_req_char_array(v) {
            Err(e) => Err(e),
            Ok(a) => match set_once(key, st.skip_short, Some(a)) {
                Err(e) => Err(e),
                Ok(x) => Ok(OptionsView { skip_short: x, ..st }),
            },
        }
    } else if kind != FieldKind::Flag && key == "serde"@ {
        match spec_serde_item(kind, v) {
            Err(e) => Err(e),
            Ok(sd) => match set_once(key, st.serde, Some(sd)) {
                Err(e) => Err(e),
                Ok(x) => then_comma(v, OptionsView { serde: x, ..st }),
            },
        }
    } else {
        Err(seq![unrecognized(kind)])
    }
}

fn field_arg(kind: FieldKind, name: &str, st: &mut FieldOptions, arg: &AttrArg) -> (r: Result<(), DeriveError>)
    ensures
        step_view(r, final(st)@) == spec_field_arg(kind, name@, old(st)@, *arg),
{
    let key = arg.key.as_str();
    let v = &arg.value;
    let values = kind == FieldKind::Parameter || kind == FieldKind::Repeat;
    if str_eq(key, kind_keyword_str(kind)) {
        return comma_check(v);
    }
    if kind == FieldKind::Flag || kind == FieldKind::Parameter || kind == FieldKind::Repeat {
        match switch_arg(name, st, arg) {
            Some(r) => {
                return r;
            },
            None => {},
        }
    }
    if kind == FieldKind::Parameter && str_eq(key, "default_value") {
        let d = req_str(v)?;
        if st.default_value.is_some() {
            return Err(twice(key));
        }
        st.default_value = Some(d);
        Ok(())
    } else if kind == FieldKind::Parameter && str_eq(key, "default_help_str") {
        let d = req_str(v)?;
        if st.default_help_str.is_some() {
            return Err(twice(key));
        }
        st.default_help_str = Some(d);
        Ok(())
    } else if kind == FieldKind::Parameter && str_eq(key, "default") {
        let expr = match v {
            AttrValue::Nested(_) | AttrValue::ParenExpr => arg.text.clone(),
            _ => string_of("Default::default()"),
        };
        if st.default_value_expr.is_some() {
            return Err(twice(key));
        }
        st.default_value_expr = Some(expr);
        comma_check(v)
    } else if values && str_eq(key, "value_parser") {
        let x = req_expr(arg)?;
        if st.value_parser.is_some() {
            return Err(twice(key));
        }
        st.value_parser = Some(x);
        Ok(())
    } else if values && str_eq(key, "value_parser_os") {
        let x = req_expr(arg)?;
        if st.value_parser_os.is_some() {
            return Err(twice(key));
        }
        st.value_parser_os = Some(x);
        Ok(())
    } else if values && str_eq(key, "allow_hyphen_values") {
        st.allow_hyphen_values = true;
        comma_check(v)
    } else if values && str_eq(key, "secret") {
        let b = opt_bool(v)?;
        if st.secret.is_some() {
            return Err(twice(key));
        }
        st.secret = Some(
            match b {
                Some(x) => x,
                None => true,
            },
        );
        Ok(())
    } else if values && str_eq(key, "pos") {
        st.is_positional = true;
        comma_check(v)
    } else if kind == FieldKind::Repeat && str_eq(key, "env_delimiter") {
        let c = req_char(v)?;
        if st.env_delimiter.is_some() {
            return Err(twice(key));
        }
        st.env_delimiter = Some(c);
        Ok(())
    } else if kind == FieldKind::Repeat && str_eq(key, "no_env_delimiter") {
        st.no_env_delimiter = true;
        comma_check(v)
    } else if kind == FieldKind::Parameter && str_eq(key, "test") {
        let t = test_item(v)?;
        if st.test.is_some() {
            return Err(twice(key));
        }
        st.test = Some(t);
        comma_check(v)
    } else if kind == FieldKind::Flatten && str_eq(key, "long_prefix") {
        let p = opt_str(v)?;
        if st.long_prefix.is_some() {
            return Err(twice(key));
        }
        st.long_prefix = match p {
            Some(x) => Some(x),
            None => make_long_prefix(name),
        };
        Ok(())
    } else if kind == FieldKind::Flatten && str_eq(key, "env_prefix") {
        let p = opt_str(v)?;
        if st.env_prefix.is_some() {
            return Err(twice(key));
        }
        st.env_prefix = match p {
            Some(x) => Some(x),
            None => make_env_prefix(name),
        };
        Ok(())
    } else if kind == FieldKind::Flatten && str_eq(key, "help_prefix") {
        let p = opt_str(v)?;
        if st.help_prefix.is_some() {
            return Err(twice(key));
        }
        st.help_prefix = Some(p);
        Ok(())
    } else if kind == FieldKind::Flatten && str_eq(key, "prefix") {
        let p = opt_str(v)?;
        let (long, env) = match &p {
            Some(x) => (make_long_prefix(x.as_str()), make_env_prefix(x.as_str())),
            None => (make_long_prefix(name), make_env_prefix(name)),
        };
        if st.long_prefix.is_some() {
            return Err(twice(key));
        }
        st.long_prefix = long;
        if st.env_prefix.is_some() {
            return Err(twice(key));
        }
        st.env_prefix = env;
        Ok(())
    } else if kind == FieldKind::Flatten && str_eq(key, "skip_short") {
        let a = req_char_array(v)?;
        if st.skip_short.is_some() {
            return Err(twice(key));
        }
        st.skip_short = Some(a);
        Ok(())
    } else if kind != FieldKind::Flag && str_eq(key, "serde") {
        let sd = serde_item(kind, v)?;
        if st.serde.is_some() {
            return Err(twice(key));
        }
        st.serde = Some(sd);
        comma_check(v)
    } else {
        Err(derive_error(unrecognized_str(kind)))
    }
}

/// The items of a `#[conf(...)]` attribute from position `i` on.
pub open spec fn spec_field_args(kind: FieldKind, name: Seq<char>, st: OptionsView, args: Seq<AttrArg>, i: int) -> Result<
    OptionsView,
    Messages,
>
    decreases args.len() - i,
{
    if i >= args.len() {
        Ok(st)
    } else {
        match spec_field_arg(kind, name, st, args[i]) {
            Err(e) => Err(e),
            Ok(s) => spec_field_args(kind, name, s, args, i + 1),
        }
    }
}

/// Whether an attribute is one of the derive's on a field (`conf` or `arg`).
pub open spec fn is_field_attr(a: Attr) -> bool {
    attr_name(a) == "conf"@ || attr_name(a) == "arg"@
}

/// The attributes of a field from position `i` on: doc comments are appended to the
/// description, and the items of the derive's attributes set options, in order.
pub open spec fn spec_field_attrs(kind: FieldKind, name: Seq<char>, st: OptionsView, attrs: Seq<Attr>, i: int) -> Result<
    OptionsView,
    Messages,
>
    decreases attrs.len() - i,
{
    if i >= attrs.len() {
        Ok(st)
    } else {
        let a = attrs[i];
        match spec_doc_step(st.doc_string, a) {
            Err(e) => Err(e),
            Ok(d) => {
                let st1 = OptionsView { doc_string: d, ..st };
                if is_field_attr(a) {
                    match a {
                        Attr::List(_, args) => if args@.len() == 0 {
                            Err(seq![expected_nested()])
                        } else {
                            match spec_field_args(kind, name, st1, args@, 0) {
                                Err(e) => Err(e),
                                Ok(s) => spec_field_attrs(kind, name, s, attrs, i + 1),
                            }
                        },
                        _ => Err(not_list_error(a)),
                    }
                } else {
                    spec_field_attrs(kind, name, st1, attrs, i + 1)
                }
            },
        }
    }
}

fn field_attrs(kind: FieldKind, name: &str, st: &mut FieldOptions, attrs: &Vec<Attr>) -> (r: Result<(), DeriveError>)
    ensures
        step_view(r, final(st)@) == spec_field_attrs(kind, name@, old(st)@, attrs@, 0),
{
    let ghost start = st@;
    let n = attrs.len();
    let mut i: usize = 0;
    while i < n
        invariant
            n == attrs@.len(),
            i <= n,
            start == old(st)@,
            spec_field_attrs(kind, name@, start, attrs@, 0) == spec_field_attrs(
                kind,
                name@,
                st@,
                attrs@,
                i as int,
            ),
        decreases n - i,
    {
        let a = &attrs[i];
        let ghost before = st@;
        doc_step(&mut st.doc_string, a)?;
        assert(st@ == OptionsView { doc_string: st@.doc_string, ..before });
        let an = get_attr_name(a);
        if str_eq(an, "conf") || str_eq(an, "arg") {
            match a {
                Attr::List(_, args) => {
                    let m = args.len();
                    if m == 0 {
                        return Err(derive_error("expected nested attribute"));
                    }
                    let ghost st1 = st@;
                    let mut j: usize = 0;
                    while j < m
                        invariant
                            m == args@.len(),
                            j <= m,
                            start == old(st)@,
                            spec_field_attrs(kind, name@, start, attrs@, 0) == match spec_field_args(
                                kind,
                                name@,
                                st1,
                                args@,
                                0,
                            ) {
                                Err(e) => Err(e),
                                Ok(x) => spec_field_attrs(kind, name@, x, attrs@, i + 1),
                            },
                            spec_field_args(kind, name@, st1, args@, 0) == spec_field_args(
                                kind,
                                name@,
                                st@,
                                args@,
                                j as int,
                            ),
                        decreases m - j,
                    {
                        field_arg(kind, name, st, &args[j])?;
                        j = j + 1;
                    }
                },
                _ => {
                    return Err(not_list(a));
                },
            }
        }
        i = i + 1;
    }
    Ok(())
}

/// What the type of a field gives before its attributes are read: whether it is optional,
/// whether its values may start with a hyphen, and (for a parameter or a repeat field) the
/// identifier of the type of one value (the `T` of `Option<T>` or `Vec<T>`). A repeat field must be a `Vec<T>`; `Option<...>` and `Vec<...>` must have one
/// type argument.
pub open spec fn spec_kind_init(kind: FieldKind, ty: TypeShape) -> Result<(bool, bool, Option<Seq<char>>), Messages> {
    match kind {
        FieldKind::Flag => Ok((false, false, None)),
        FieldKind::Repeat => match spec_type_is_generic("Vec"@, ty) {
            Err(e) => Err(e),
            Ok(None) => Err(seq!["Type of a conf(repeat) field must be Vec<T>"@]),
            Ok(Some(inner)) => Ok(
                (
                    false,
                    (inner matches Some(id) && spec_name_is_signed_number(id)),
                    inner,
                ),
            ),
        },
        _ => match spec_type_is_generic("Option"@, ty) {
            Err(e) => Err(e),
            Ok(o) => Ok(
                (
                    o is Some,
                    kind == FieldKind::Parameter && spec_type_is_signed_number(ty),
                    if kind == FieldKind::Parameter {
                        match o {
                            Some(inner) => inner,
                            None => plain_ident(ty),
                        }
                    } else {
                        None
                    },
                ),
            ),
        },
    }
}

/// The identifier of a type that is a plain one-segment path.
pub open spec fn plain_ident(t: TypeShape) -> Option<Seq<char>> {
    match t {
        TypeShape::Path(id, crate::derive_attrs::GenericArgs::Plain) => Some(id@),
        _ => None,
    }
}

/// Whether a repeat field reads raw OS strings: with `value_parser_os`, or without any value
/// parser for items of type `PathBuf` or `OsString`.
pub open spec fn repeat_reads_os(st: OptionsView, inner: Option<Seq<char>>) -> bool {
    st.value_parser_os is Some || (st.value_parser is None && (inner matches Some(id) && (id
        == "PathBuf"@ || id == "OsString"@)))
}

/// Whether aliases are set without a long switch (aliases are never an empty list).
pub open spec fn aliases_without_long(st: OptionsView) -> bool {
    st.long_switch is None && st.aliases is Some
}

/// Whether env aliases are set without an env.
pub open spec fn env_aliases_without_env(st: OptionsView) -> bool {
    st.env_name is None && st.env_aliases is Some
}

/// The message for aliases without a long switch.
pub open spec fn aliases_message() -> Seq<char> {
    "Setting aliases without setting a long-switch is an error, make one of the aliases the primary switch name."@
}

/// The message for env aliases without an env.
pub open spec fn env_aliases_message() -> Seq<char> {
    "Setting env_aliases without setting an env is an error, make one of the aliases the primary env."@
}

/// The message for a parameter that cannot receive a value.
pub open spec fn no_way_message() -> Seq<char> {
    "There is no way for the user to give this parameter a value. Trying using #[arg(short)], #[arg(long)], #[arg(env)], or #[arg(pos)] to specify a switch, positional argument, or an env associated to this value, or specify a default value."@
}

/// The message for a non-ASCII env delimiter of a repeat field that reads OS strings.
pub open spec fn delimiter_message() -> Seq<char> {
    "env_delimiter must be an ASCII character when using value_parser_os (or with Vec<PathBuf>/Vec<OsString> types). OsStr uses a platform-specific encoding and only splitting by ASCII is supported."@
}

/// The combinations of options that a field of this kind refuses, checked in order after its
/// attributes are read. `is_optional` says whether the field's type is an `Option`,
/// `struct_has_serde` whether the structure reads a document.
pub open spec fn spec_validate(
    kind: FieldKind,
    is_optional: bool,
    inner: Option<Seq<char>>,
    struct_has_serde: bool,
    st: OptionsView,
) -> Result<(), Messages> {
    match kind {
        FieldKind::Flag => if aliases_without_long(st) {
            Err(seq![aliases_message()])
        } else if env_aliases_without_env(st) {
            Err(seq![env_aliases_message()])
        } else {
            Ok(())
        },
        FieldKind::Parameter => if st.is_positional && st.short_switch is Some {
            Err(seq!["#[conf(pos)] cannot be used with #[conf(short)]"@])
        } else if st.is_positional && st.long_switch is Some {
            Err(seq!["#[conf(pos)] cannot be used with #[conf(long)]"@])
        } else if st.value_parser is Some && st.value_parser_os is Some {
            Err(seq!["value_parser and value_parser_os are mutually exclusive"@])
        } else if st.default_value is Some && st.default_value_expr is Some {
            Err(seq!["#[conf(default_value)] and #[conf(default)] cannot both be specified"@])
        } else if st.default_help_str is Some && st.default_value is None && st.default_value_expr is None
            && !is_optional {
            Err(seq!["default_help_str is provided but there is no default that it is documenting"@])
        } else if !is_optional && st.short_switch is None && st.long_switch is None && st.env_name is None
            && st.default_value is None && st.default_value_expr is None && !st.is_positional
            && !struct_has_serde {
            Err(seq![no_way_message()])
        } else if aliases_without_long(st) {
            Err(seq![aliases_message()])
        } else if env_aliases_without_env(st) {
            Err(seq![env_aliases_message()])
        } else {
            Ok(())
        },
        FieldKind::Repeat => if st.value_parser is Some && st.value_parser_os is Some {
            Err(seq!["Cannot specify both value_parser and value_parser_os"@])
        } else if st.no_env_delimiter && st.env_delimiter is Some {
            Err(seq!["Cannot specify both env_delimiter and no_env_delimiter"@])
        } else if st.env_delimiter is Some && st.env_name is None {
            Err(seq!["env_delimiter has no effect if an env variable is not declared"@])
        } else if st.no_env_delimiter && st.env_name is None {
            Err(seq!["no_env_delimiter has no effect if an env variable is not declared"@])
        } else if (st.env_delimiter matches Some(d) && repeat_reads_os(st, inner) && !((d as int)
            < 128)) {
            Err(seq![delimiter_message()])
        } else if st.is_positional && st.long_switch is Some {
            Err(seq!["#[conf(pos)] cannot be used with #[conf(long)]"@])
        } else if st.is_positional && st.short_switch is Some {
            Err(seq!["#[conf(pos)] cannot be used with #[conf(short)]"@])
        } else if aliases_without_long(st) {
            Err(seq![aliases_message()])
        } else if env_aliases_without_env(st) {
            Err(seq![env_aliases_message()])
        } else {
            Ok(())
        },
        _ => Ok(()),
    }
}

/// The description prefix of a flattened field: the text of `help_prefix`, or its doc string
/// if `help_prefix` is given without text; none without `help_prefix`.
pub open spec fn spec_description_prefix(kind: FieldKind, st: OptionsView) -> Option<Seq<char>> {
    if kind == FieldKind::Flatten {
        match st.help_prefix {
            None => None,
            Some(Some(p)) => Some(p),
            Some(None) => st.doc_string,
        }
    } else {
        None
    }
}

/// A field of a `Conf` structure, as the derive sees it.
pub struct FieldInput {
    /// Its name (none for a tuple struct's field).
    pub name: Option<String>,
    /// Its type.
    pub ty: TypeShape,
    /// Its attributes, in order.
    pub attrs: Vec<Attr>,
}

/// A field read by the derive: its kind, name, whether its type is optional, its options, and
/// (for a flattened field) the prefix of its options' descriptions.
pub struct FieldItem {
    pub kind: FieldKind,
    pub field_name: String,
    pub is_optional_type: bool,
    /// The identifier of the type of one value of a parameter or repeat field, if it is a
    /// plain one-segment path.
    pub value_type: Option<String>,
    pub options: FieldOptions,
    pub description_prefix: Option<String>,
}

/// The content of a `FieldItem`.
pub struct FieldItemView {
    pub kind: FieldKind,
    pub field_name: Seq<char>,
    pub is_optional_type: bool,
    pub value_type: Option<Seq<char>>,
    pub options: OptionsView,
    pub description_prefix: Option<Seq<char>>,
}

impl View for FieldItem {
    type V = FieldItemView;

    open spec fn view(&self) -> FieldItemView {
        FieldItemView {
            kind: self.kind,
            field_name: self.field_name@,
            is_optional_type: self.is_optional_type,
            value_type: opt_view(self.value_type),
            options: self.options@,
            description_prefix: opt_view(self.description_prefix),
        }
    }
}

/// A field read as a field of the given kind: the error for a field without a name, for a
/// type that does not fit the kind, for an attribute item that is refused, or for options that
/// do not go together; otherwise the options that its attributes set.
pub open spec fn spec_field_item(kind: FieldKind, field: FieldInput, struct_has_serde: bool) -> Result<
    FieldItemView,
    Messages,
> {
    match field.name {
        None => Err(seq!["missing identifier"@]),
        Some(n) => match spec_kind_init(kind, field.ty) {
            Err(e) => Err(e),
            Ok((is_optional, hyphen, inner)) => match spec_field_attrs(
                kind,
                n@,
                initial_options(hyphen),
                field.attrs@,
                0,
            ) {
                Err(e) => Err(e),
                Ok(st) => match spec_validate(kind, is_optional, inner, struct_has_serde, st) {
                    Err(e) => Err(e),
                    Ok(_) => Ok(
                        FieldItemView {
                            kind,
                            field_name: n@,
                            is_optional_type: is_optional,
                            value_type: inner,
                            options: st,
                            description_prefix: spec_description_prefix(kind, st),
                        },
                    ),
                },
            },
        },
    }
}

/// The kind named by an attribute item's key, if it names one.
pub open spec fn keyword_kind(key: Seq<char>) -> Option<FieldKind> {
    if key == "flag"@ {
        Some(FieldKind::Flag)
    } else if key == "parameter"@ {
        Some(FieldKind::Parameter)
    } else if key == "repeat"@ {
        Some(FieldKind::Repeat)
    } else if key == "flatten"@ {
        Some(FieldKind::Flatten)
    } else if key == "subcommands"@ {
        Some(FieldKind::Subcommands)
    } else {
        None
    }
}

/// The kind of a field: the first derive attribute whose first item names a kind decides;
/// without one, a `bool` field is a flag and any other a parameter. A derive attribute without
/// parentheses is an error.
pub open spec fn spec_field_kind(attrs: Seq<Attr>, ty: TypeShape, i: int) -> Result<FieldKind, Messages>
    decreases attrs.len() - i,
{
    if i >= attrs.len() {
        Ok(
            if crate::derive_attrs::spec_type_is_bool(ty) {
                FieldKind::Flag
            } else {
                FieldKind::Parameter
            },
        )
    } else if is_field_attr(attrs[i]) {
        match attrs[i] {
            Attr::List(_, args) => if args@.len() > 0 && keyword_kind(args@[0].key@) is Some {
                Ok(keyword_kind(args@[0].key@).unwrap())
            } else {
                spec_field_kind(attrs, ty, i + 1)
            },
            _ => Err(not_list_error(attrs[i])),
        }
    } else {
        spec_field_kind(attrs, ty, i + 1)
    }
}

/// A field read by the derive (see `spec_field_kind` and `spec_field_item`).
pub open spec fn spec_read_field(field: FieldInput, struct_has_serde: bool) -> Result<FieldItemView, Messages> {
    match spec_field_kind(field.attrs@, field.ty, 0) {
        Err(e) => Err(e),
        Ok(kind) => spec_field_item(kind, field, struct_has_serde),
    }
}

fn keyword_kind_of(key: &str) -> (r: Option<FieldKind>)
    ensures
        r == keyword_kind(key@),
{
    if str_eq(key, "flag") {
        Some(FieldKind::Flag)
    } else if str_eq(key, "parameter") {
        Some(FieldKind::Parameter)
    } else if str_eq(key, "repeat") {
        Some(FieldKind::Repeat)
    } else if str_eq(key, "flatten") {
        Some(FieldKind::Flatten)
    } else if str_eq(key, "subcommands") {
        Some(FieldKind::Subcommands)
    } else {
        None
    }
}

fn kind_init(kind: FieldKind, ty: &TypeShape) -> (r: Result<(bool, bool, Option<String>), DeriveError>)
    ensures
        match r {
            Ok((o, h, inner)) => spec_kind_init(kind, *ty) == Ok::<
                (bool, bool, Option<Seq<char>>),
                Messages,
            >((o, h, opt_view(inner))),
            Err(e) => spec_kind_init(kind, *ty) == Err::<
                (bool, bool, Option<Seq<char>>),
                Messages,
            >(messages_view(e)),
        },
{
    match kind {
        FieldKind::Flag => Ok((false, false, None)),
        FieldKind::Repeat => match type_is_generic("Vec", ty)? {
            None => Err(derive_error("Type of a conf(repeat) field must be Vec<T>")),
            Some(inner) => {
                let hyphen = match &inner {
                    Some(id) => name_is_signed_number(id.as_str()),
                    None => false,
                };
                Ok((false, hyphen, inner))
            },
        },
        _ => {
            let o = type_is_generic("Option", ty)?;
            let hyphen = kind == FieldKind::Parameter && type_is_signed_number(ty);
            let is_optional = o.is_some();
            let value_type = if kind == FieldKind::Parameter {
                match o {
                    Some(inner) => inner,
                    None => match ty {
                        TypeShape::Path(id, crate::derive_attrs::GenericArgs::Plain) => Some(id.clone()),
                        _ => None,
                    },
                }
            } else {
                None
            };
            Ok((is_optional, hyphen, value_type))
        },
    }
}

fn validate(
    kind: FieldKind,
    is_optional: bool,
    inner: &Option<String>,
    struct_has_serde: bool,
    st: &FieldOptions,
) -> (r: Result<(), DeriveError>)
    ensures
        err_view(r) == spec_validate(kind, is_optional, opt_view(*inner), struct_has_serde, st@),
{
    let aliases_without_long = st.long_switch.is_none() && st.aliases.is_some();
    let env_aliases_without_env = st.env_name.is_none() && st.env_aliases.is_some();
    assert(aliases_without_long == crate::derive_fields::aliases_without_long(st@));
    assert(env_aliases_without_env == crate::derive_fields::env_aliases_without_env(st@));
    match kind {
        FieldKind::Flag => {
            if aliases_without_long {
                return Err(derive_error("Setting aliases without setting a long-switch is an error, make one of the aliases the primary switch name."));
            }
            if env_aliases_without_env {
                return Err(derive_error("Setting env_aliases without setting an env is an error, make one of the aliases the primary env."));
            }
            Ok(())
        },
        FieldKind::Parameter => {
            if st.is_positional && st.short_switch.is_some() {
                return Err(derive_error("#[conf(pos)] cannot be used with #[conf(short)]"));
            }
            if st.is_positional && st.long_switch.is_some() {
                return Err(derive_error("#[conf(pos)] cannot be used with #[conf(long)]"));
            }
            if st.value_parser.is_some() && st.value_parser_os.is_some() {
                return Err(derive_error("value_parser and value_parser_os are mutually exclusive"));
            }
            if st.default_value.is_some() && st.default_value_expr.is_some() {
                return Err(derive_error("#[conf(default_value)] and #[conf(default)] cannot both be specified"));
            }
            if st.default_help_str.is_some() && st.default_value.is_none()
                && st.default_value_expr.is_none() && !is_optional {
                return Err(derive_error("default_help_str is provided but there is no default that it is documenting"));
            }
            if !is_optional && st.short_switch.is_none() && st.long_switch.is_none()
                && st.env_name.is_none() && st.default_value.is_none()
                && st.default_value_expr.is_none() && !st.is_positional && !struct_has_serde {
                return Err(derive_error("There is no way for the user to give this parameter a value. Trying using #[arg(short)], #[arg(long)], #[arg(env)], or #[arg(pos)] to specify a switch, positional argument, or an env associated to this value, or specify a default value."));
            }
            if aliases_without_long {
                return Err(derive_error("Setting aliases without setting a long-switch is an error, make one of the aliases the primary switch name."));
            }
            if env_aliases_without_env {
                return Err(derive_error("Setting env_aliases without setting an env is an error, make one of the aliases the primary env."));
            }
            Ok(())
        },
        FieldKind::Repeat => {
            if st.value_parser.is_some() && st.value_parser_os.is_some() {
                return Err(derive_error("Cannot specify both value_parser and value_parser_os"));
            }
            if st.no_env_delimiter && st.env_delimiter.is_some() {
                return Err(derive_error("Cannot specify both env_delimiter and no_env_delimiter"));
            }
            if st.env_delimiter.is_some() && st.env_name.is_none() {
                return Err(derive_error("env_delimiter has no effect if an env variable is not declared"));
            }
            if st.no_env_delimiter && st.env_name.is_none() {
                return Err(derive_error("no_env_delimiter has no effect if an env variable is not declared"));
            }
            let reads_os = st.value_parser_os.is_some() || (st.value_parser.is_none() && match inner {
                Some(id) => str_eq(id.as_str(), "PathBuf") || str_eq(id.as_str(), "OsString"),
                None => false,
            });
            if let Some(d) = st.env_delimiter {
                if reads_os && !(d < '\u{80}') {
                    return Err(derive_error("env_delimiter must be an ASCII character when using value_parser_os (or with Vec<PathBuf>/Vec<OsString> types). OsStr uses a platform-specific encoding and only splitting by ASCII is supported."));
                }
            }
            if st.is_positional && st.long_switch.is_some() {
                return Err(derive_error("#[conf(pos)] cannot be used with #[conf(long)]"));
            }
            if st.is_positional && st.short_switch.is_some() {
                return Err(derive_error("#[conf(pos)] cannot be used with #[conf(short)]"));
            }
            if aliases_without_long {
                return Err(derive_error("Setting aliases without setting a long-switch is an error, make one of the aliases the primary switch name."));
            }
            if env_aliases_without_env {
                return Err(derive_error("Setting env_aliases without setting an env is an error, make one of the aliases the primary env."));
            }
            Ok(())
        },
        _ => Ok(()),
    }
}

impl FieldItem {
    /// A field read as a field of the given kind (see `spec_field_item`).
    pub fn with_kind(kind: FieldKind, field: &FieldInput, struct_has_serde: bool) -> (r: Result<FieldItem, DeriveError>)
        ensures
            match r {
                Ok(item) => spec_field_item(kind, *field, struct_has_serde) == Ok::<
                    FieldItemView,
                    Messages,
                >(item@),
                Err(e) => spec_field_item(kind, *field, struct_has_serde) == Err::<
                    FieldItemView,
                    Messages,
                >(messages_view(e)),
            },
    {
        let name = match &field.name {
            Some(n) => n,
            None => {
                return Err(derive_error("missing identifier"));
            },
        };
        let (is_optional, hyphen, inner) = kind_init(kind, &field.ty)?;
        let mut st = new_options(hyphen);
        field_attrs(kind, name.as_str(), &mut st, &field.attrs)?;
        validate(kind, is_optional, &inner, struct_has_serde, &st)?;
        let description_prefix = if kind == FieldKind::Flatten {
            match &st.help_prefix {
                None => None,
                Some(Some(p)) => Some(p.clone()),
                Some(None) => clone_opt_string(&st.doc_string),
            }
        } else {
            None
        };
        Ok(
            FieldItem {
                kind,
                field_name: name.clone(),
                is_optional_type: is_optional,
                value_type: inner,
                options: st,
                description_prefix,
            },
        )
    }

    /// A field read by the derive: its kind decided by its attributes or its type (see
    /// `spec_read_field`).
    pub fn new(field: &FieldInput, struct_has_serde: bool) -> (r: Result<FieldItem, DeriveError>)
        ensures
            match r {
                Ok(item) => spec_read_field(*field, struct_has_serde) == Ok::<
                    FieldItemView,
                    Messages,
                >(item@),
                Err(e) => spec_read_field(*field, struct_has_serde) == Err::<
                    FieldItemView,
                    Messages,
                >(messages_view(e)),
            },
    {
        let attrs = &field.attrs;
        let n = attrs.len();
        let mut i: usize = 0;
        while i < n
            invariant
                n == attrs@.len(),
                *attrs == field.attrs,
                i <= n,
                spec_field_kind(attrs@, field.ty, 0) == spec_field_kind(attrs@, field.ty, i as int),
            decreases n - i,
        {
            let a = &attrs[i];
            let an = get_attr_name(a);
            if str_eq(an, "conf") || str_eq(an, "arg") {
                match a {
                    Attr::List(_, args) => {
                        if args.len() > 0 {
                            if let Some(kind) = keyword_kind_of(args[0].key.as_str()) {
                                return FieldItem::with_kind(kind, field, struct_has_serde);
                            }
                        }
                    },
                    _ => {
                        return Err(not_list(a));
                    },
                }
            }
            i = i + 1;
        }
        let kind = if crate::derive_attrs::type_is_bool(&field.ty) {
            FieldKind::Flag
        } else {
            FieldKind::Parameter
        };
        FieldItem::with_kind(kind, field, struct_has_serde)
    }
}

/// A list that may be absent, as a list.
pub open spec fn or_empty(v: Option<Seq<Seq<char>>>) -> Seq<Seq<char>> {
    match v {
        Some(l) => l,
        None => Seq::empty(),
    }
}

/// Whether a field can receive a value from a document: it has a `serde` option that does not
/// skip it.
pub open spec fn has_serde_source(o: OptionsView) -> bool {
    o.serde matches Some(s) && !s.skip
}

/// The text a parameter shows for its default in the help of its command-line argument: its
/// `default_help_str`, else its default value's text. A default given as an expression has
/// no text here: its value is only known to the compiled program.
pub open spec fn spec_default_help(o: OptionsView) -> Option<Seq<char>> {
    match o.default_help_str {
        Some(h) => Some(h),
        None => o.default_value,
    }
}

/// The program option of a field that is one option (a flag, a parameter or a repeat
/// parameter); none for a flattened or subcommands field. A parameter is required unless its
/// type is optional or it has a default; a flag or a repeat parameter never is. Flags are
/// never secret, nor positional.
pub open spec fn spec_program_option(f: FieldItemView) -> Option<ProgramOptionView> {
    let o = f.options;
    match f.kind {
        FieldKind::Flag => Some(
            ProgramOptionView {
                id: f.field_name,
                parse_type: ParseType::Flag,
                description: o.doc_string,
                short_form: o.short_switch,
                long_form: o.long_switch,
                aliases: or_empty(o.aliases),
                env_form: o.env_name,
                env_aliases: or_empty(o.env_aliases),
                default_value: None,
                default_help_str: None,
                is_required: false,
                allow_hyphen_values: false,
                secret: Some(false),
                is_positional: false,
                has_serde_source: false,
            },
        ),
        FieldKind::Parameter => Some(
            ProgramOptionView {
                id: f.field_name,
                parse_type: ParseType::Parameter,
                description: o.doc_string,
                short_form: o.short_switch,
                long_form: o.long_switch,
                aliases: or_empty(o.aliases),
                env_form: o.env_name,
                env_aliases: or_empty(o.env_aliases),
                default_value: o.default_value,
                default_help_str: spec_default_help(o),
                is_required: !f.is_optional_type && o.default_value is None && o.default_value_expr is None,
                allow_hyphen_values: o.allow_hyphen_values,
                secret: o.secret,
                is_positional: o.is_positional,
                has_serde_source: has_serde_source(o),
            },
        ),
        FieldKind::Repeat => Some(
            ProgramOptionView {
                id: f.field_name,
                parse_type: ParseType::Repeat,
                description: o.doc_string,
                short_form: o.short_switch,
                long_form: o.long_switch,
                aliases: or_empty(o.aliases),
                env_form: o.env_name,
                env_aliases: or_empty(o.env_aliases),
                default_value: None,
                default_help_str: None,
                is_required: false,
                allow_hyphen_values: o.allow_hyphen_values,
                secret: o.secret,
                is_positional: o.is_positional,
                has_serde_source: has_serde_source(o),
            },
        ),
        _ => None,
    }
}

/// The transform a flattened field applies to the options of its structure: its id prefix
/// (the field name and a dot), its long, env and description prefixes (empty where not set),
/// and whether the options become optional (an optional type); none for other fields.
pub open spec fn spec_flatten_transform(f: FieldItemView) -> Option<(Seq<char>, Seq<char>, Seq<char>, Seq<char>, bool)> {
    if f.kind == FieldKind::Flatten {
        Some(
            (
                f.field_name + "."@,
                match f.options.long_prefix {
                    Some(p) => p,
                    None => Seq::empty(),
                },
                match f.options.env_prefix {
                    Some(p) => p,
                    None => Seq::empty(),
                },
                match f.description_prefix {
                    Some(p) => p,
                    None => Seq::empty(),
                },
                f.is_optional_type,
            ),
        )
    } else {
        None
    }
}

fn list_or_empty(v: &Option<Vec<String>>) -> (r: Vec<String>)
    ensures
        strs(r@) == or_empty(opt_strs(*v)),
{
    match v {
        Some(l) => {
            let r = clone_strings(l);
            r
        },
        None => {
            let r: Vec<String> = Vec::new();
            assert(strs(r@) =~= Seq::<Seq<char>>::empty());
            r
        },
    }
}

fn string_or_empty(v: &Option<String>) -> (r: String)
    ensures
        r@ == match opt_view(*v) {
            Some(p) => p,
            None => Seq::<char>::empty(),
        },
{
    match v {
        Some(p) => p.clone(),
        None => String::new(),
    }
}

impl FieldItem {
    /// The program option of this field, if it is one option (see `spec_program_option`).
    pub fn program_option(&self) -> (r: Option<ProgramOption>)
        ensures
            match r {
                Some(p) => spec_program_option(self@) == Some(p@),
                None => spec_program_option(self@) is None,
            },
    {
        let o = &self.options;
        let serde_source = match &o.serde {
            Some(s) => !s.skip,
            None => false,
        };
        let (parse_type, default_value, default_help_str, is_required, allow_hyphen_values, secret, is_positional, serde) =
            match self.kind {
            FieldKind::Flag => (ParseType::Flag, None, None, false, false, Some(false), false, false),
            FieldKind::Parameter => (
                ParseType::Parameter,
                clone_opt_string(&o.default_value),
                match &o.default_help_str {
                    Some(h) => Some(h.clone()),
                    None => clone_opt_string(&o.default_value),
                },
                !self.is_optional_type && o.default_value.is_none() && o.default_value_expr.is_none(),
                o.allow_hyphen_values,
                o.secret,
                o.is_positional,
                serde_source,
            ),
            FieldKind::Repeat => (
                ParseType::Repeat,
                None,
                None,
                false,
                o.allow_hyphen_values,
                o.secret,
                o.is_positional,
                serde_source,
            ),
            _ => {
                return None;
            },
        };
        let p = ProgramOption {
            id: self.field_name.clone(),
            parse_type,
            description: clone_opt_string(&o.doc_string),
            short_form: o.short_switch,
            long_form: clone_opt_string(&o.long_switch),
            aliases: list_or_empty(&o.aliases),
            env_form: clone_opt_string(&o.env_name),
            env_aliases: list_or_empty(&o.env_aliases),
            default_value,
            default_help_str,
            is_required,
            allow_hyphen_values,
            secret,
            is_positional,
            has_serde_source: serde,
        };
        assert(p@.aliases == strs(p.aliases@));
        Some(p)
    }

    /// The transform this field applies to the options of the structure it flattens (see
    /// `spec_flatten_transform`).
    pub fn flatten_transform(&self) -> (r: Option<FlattenTransform>)
        ensures
            match r {
                Some(t) => spec_flatten_transform(self@) == Some(
                    (t.id_prefix@, t.long_prefix@, t.env_prefix@, t.description_prefix@, t.make_optional),
                ),
                None => spec_flatten_transform(self@) is None,
            },
    {
        if self.kind != FieldKind::Flatten {
            return None;
        }
        let mut id_prefix = self.field_name.clone();
        id_prefix.append(".");
        Some(
            FlattenTransform {
                id_prefix,
                long_prefix: string_or_empty(&self.options.long_prefix),
                env_prefix: string_or_empty(&self.options.env_prefix),
                description_prefix: string_or_empty(&self.description_prefix),
                make_optional: self.is_optional_type,
            },
        )
    }
}

/// How the values of a parameter or repeat field are parsed.
pub enum ValueParserChoice {
    /// The explicit parser of OS strings (`value_parser_os`), by its source text.
    Os(String),
    /// The explicit parser of strings (`value_parser`), by its source text.
    Str(String),
    /// The default parser of `PathBuf` values, which reads OS strings.
    PathBuf,
    /// The default parser of `OsString` values.
    OsString,
    /// `FromStr::from_str`, which reads strings.
    FromStr,
}

/// The content of a `ValueParserChoice`.
pub enum ValueParserView {
    Os(Seq<char>),
    Str(Seq<char>),
    PathBuf,
    OsString,
    FromStr,
}

/// The parser of a field's values: `value_parser_os` first, then `value_parser`, then the
/// default parser of `PathBuf` or `OsString` values, else `FromStr`; none for flags, flattened
/// and subcommands fields.
pub open spec fn spec_value_parser(f: FieldItemView) -> Option<ValueParserView> {
    if f.kind == FieldKind::Parameter || f.kind == FieldKind::Repeat {
        Some(
            match f.options.value_parser_os {
                Some(x) => ValueParserView::Os(x),
                None => match f.options.value_parser {
                    Some(x) => ValueParserView::Str(x),
                    None => if f.value_type == Some("PathBuf"@) {
                        ValueParserView::PathBuf
                    } else if f.value_type == Some("OsString"@) {
                        ValueParserView::OsString
                    } else {
                        ValueParserView::FromStr
                    },
                },
            },
        )
    } else {
        None
    }
}

/// The content of a parser choice.
pub open spec fn parser_view(c: ValueParserChoice) -> ValueParserView {
    match c {
        ValueParserChoice::Os(x) => ValueParserView::Os(x@),
        ValueParserChoice::Str(x) => ValueParserView::Str(x@),
        ValueParserChoice::PathBuf => ValueParserView::PathBuf,
        ValueParserChoice::OsString => ValueParserView::OsString,
        ValueParserChoice::FromStr => ValueParserView::FromStr,
    }
}

/// The delimiter that splits a repeat field's env value: none with `no_env_delimiter`, else
/// the declared delimiter or `,`; none for other fields.
pub open spec fn spec_env_delimiter(f: FieldItemView) -> Option<char> {
    if f.kind == FieldKind::Repeat && !f.options.no_env_delimiter {
        Some(
            match f.options.env_delimiter {
                Some(d) => d,
                None => ',',
            },
        )
    } else {
        None
    }
}

/// The name of a field in a document: its `serde(rename)`, else its name.
pub open spec fn spec_serde_name(f: FieldItemView) -> Seq<char> {
    match f.options.serde {
        Some(sd) => match sd.rename {
            Some(r) => r,
            None => f.field_name,
        },
        None => f.field_name,
    }
}

/// Whether a field can be given on the command line or in the environment: it has a short or
/// long switch, an env variable, or is positional.
pub open spec fn spec_has_cli_or_env_source(f: FieldItemView) -> bool {
    f.options.short_switch is Some || f.options.long_switch is Some || f.options.env_name is Some
        || f.options.is_positional
}

impl FieldItem {
    /// The parser of this field's values (see `spec_value_parser`).
    pub fn value_parser(&self) -> (r: Option<ValueParserChoice>)
        ensures
            match r {
                Some(c) => spec_value_parser(self@) == Some(parser_view(c)),
                None => spec_value_parser(self@) is None,
            },
    {
        if self.kind != FieldKind::Parameter && self.kind != FieldKind::Repeat {
            return None;
        }
        if let Some(x) = &self.options.value_parser_os {
            return Some(ValueParserChoice::Os(x.clone()));
        }
        if let Some(x) = &self.options.value_parser {
            return Some(ValueParserChoice::Str(x.clone()));
        }
        match &self.value_type {
            Some(t) => {
                if str_eq(t.as_str(), "PathBuf") {
                    Some(ValueParserChoice::PathBuf)
                } else if str_eq(t.as_str(), "OsString") {
                    Some(ValueParserChoice::OsString)
                } else {
                    Some(ValueParserChoice::FromStr)
                }
            },
            None => Some(ValueParserChoice::FromStr),
        }
    }

    /// The delimiter of this field's env value (see `spec_env_delimiter`).
    pub fn env_delimiter(&self) -> (r: Option<char>)
        ensures
            r == spec_env_delimiter(self@),
    {
        if self.kind == FieldKind::Repeat && !self.options.no_env_delimiter {
            Some(
                match self.options.env_delimiter {
                    Some(d) => d,
                    None => ',',
                },
            )
        } else {
            None
        }
    }

    /// The name of this field in a document (see `spec_serde_name`).
    pub fn serde_name(&self) -> (r: String)
        ensures
            r@ == spec_serde_name(self@),
    {
        match &self.options.serde {
            Some(sd) => match &sd.rename {
                Some(n) => n.clone(),
                None => self.field_name.clone(),
            },
            None => self.field_name.clone(),
        }
    }

    /// The aliases of this field in a document.
    pub fn serde_aliases(&self) -> (r: Vec<String>)
        ensures
            strs(r@) == match self@.options.serde {
                Some(sd) => sd.aliases,
                None => Seq::empty(),
            },
    {
        match &self.options.serde {
            Some(sd) => clone_strings(&sd.aliases),
            None => {
                let r: Vec<String> = Vec::new();
                assert(strs(r@) =~= Seq::<Seq<char>>::empty());
                r
            },
        }
    }

    /// Whether documents skip this field.
    pub fn serde_skip(&self) -> (r: bool)
        ensures
            r == (self@.options.serde matches Some(sd) && sd.skip),
    {
        match &self.options.serde {
            Some(sd) => sd.skip,
            None => false,
        }
    }

    /// Whether this field can be given on the command line or in the environment (see
    /// `spec_has_cli_or_env_source`).
    pub fn has_cli_or_env_source(&self) -> (r: bool)
        ensures
            r == spec_has_cli_or_env_source(self@),
    {
        self.options.short_switch.is_some() || self.options.long_switch.is_some()
            || self.options.env_name.is_some() || self.options.is_positional
    }
}

} // verus!
