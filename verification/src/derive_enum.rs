//! How the `Subcommands` derive reads an enum: each variant is a subcommand, named after the
//! variant in kebab case unless `name` overrides it, with aliases and serde options; the enum
//! itself may enable documents (`serde`).
use vstd::prelude::*;
use crate::derive_attrs::{
    Attr, AttrArg, AttrValue, DeriveError, Messages, TypeShape, attr_name, derive_error, doc_step,
    get_attr_name, has_eq, messages_view, not_list, not_list_error, req_str, spec_doc_step,
    spec_req_str, spec_type_is_generic, twice, type_is_generic,
};
use crate::derive_fields::{expected_nested, set_once, strs, then_comma, unexpected_token};
use crate::naming::{kebab_case, snake_case, to_snake};
use crate::program_option::{clone_opt_string, opt_view};
use crate::text::{push_char, str_eq, string_of};

verus! {

/// The character of a decimal digit.
pub open spec fn digit_char(d: int) -> char {
    if d == 0 {
        '0'
    } else if d == 1 {
        '1'
    } else if d == 2 {
        '2'
    } else if d == 3 {
        '3'
    } else if d == 4 {
        '4'
    } else if d == 5 {
        '5'
    } else if d == 6 {
        '6'
    } else if d == 7 {
        '7'
    } else if d == 8 {
        '8'
    } else {
        '9'
    }
}

/// The decimal digits of a number.
pub open spec fn decimal(n: nat) -> Seq<char>
    decreases n,
{
    if n < 10 {
        seq![digit_char(n as int)]
    } else {
        decimal(n / 10).push(digit_char((n % 10) as int))
    }
}

fn digit(d: usize) -> (r: char)
    requires
        d < 10,
    ensures
        r == digit_char(d as int),
{
    if d == 0 {
        '0'
    } else if d == 1 {
        '1'
    } else if d == 2 {
        '2'
    } else if d == 3 {
        '3'
    } else if d == 4 {
        '4'
    } else if d == 5 {
        '5'
    } else if d == 6 {
        '6'
    } else if d == 7 {
        '7'
    } else if d == 8 {
        '8'
    } else {
        '9'
    }
}

/// Appends the decimal digits of `n`.
pub fn append_decimal(out: &mut String, n: usize)
    ensures
        final(out)@ == old(out)@ + decimal(n as nat),
    decreases n,
{
    if n < 10 {
        push_char(out, digit(n));
        assert(decimal(n as nat) =~= seq![digit_char(n as int)]);
    } else {
        append_decimal(out, n / 10);
        push_char(out, digit(n % 10));
    }
}

/// The fields of a variant.
pub enum VariantFields {
    /// No fields.
    Unit,
    /// Unnamed fields, with their types.
    Unnamed(Vec<TypeShape>),
    /// Named fields (they make a structure of their own).
    Named,
}

/// A variant of a `Subcommands` enum, as the derive sees it.
pub struct VariantInput {
    pub name: String,
    pub fields: VariantFields,
    pub attrs: Vec<Attr>,
}

/// The `serde(...)` options of a variant.
pub struct VariantSerde {
    pub rename: Option<String>,
    pub aliases: Vec<String>,
    pub skip: bool,
}

/// The content of `VariantSerde`.
pub struct VariantSerdeView {
    pub rename: Option<Seq<char>>,
    pub aliases: Seq<Seq<char>>,
    pub skip: bool,
}

impl View for VariantSerde {
    type V = VariantSerdeView;

    open spec fn view(&self) -> VariantSerdeView {
        VariantSerdeView { rename: opt_view(self.rename), aliases: strs(self.aliases@), skip: self.skip }
    }
}

/// A variant read by the derive.
pub struct VariantItem {
    pub enum_name: String,
    pub variant_name: String,
    /// Whether the variant has one unnamed field.
    pub has_type: bool,
    /// Whether that field's type is an `Option`.
    pub is_optional_type: bool,
    /// Whether the variant has named fields.
    pub has_named_fields: bool,
    pub command_name: String,
    pub aliases: Vec<String>,
    pub serde: Option<VariantSerde>,
    pub doc_string: Option<String>,
    /// For a variant with named fields: the keys of the items passed on to its structure, each
    /// with the rest of its attribute.
    pub passthrough: Vec<String>,
}

/// The content of a `VariantItem`.
pub struct VariantView {
    pub enum_name: Seq<char>,
    pub variant_name: Seq<char>,
    pub has_type: bool,
    pub is_optional_type: bool,
    pub has_named_fields: bool,
    pub command_name: Seq<char>,
    pub aliases: Seq<Seq<char>>,
    pub serde: Option<VariantSerdeView>,
    pub doc_string: Option<Seq<char>>,
    pub passthrough: Seq<Seq<char>>,
}

impl View for VariantItem {
    type V = VariantView;

    open spec fn view(&self) -> VariantView {
        VariantView {
            enum_name: self.enum_name@,
            variant_name: self.variant_name@,
            has_type: self.has_type,
            is_optional_type: self.is_optional_type,
            has_named_fields: self.has_named_fields,
            command_name: self.command_name@,
            aliases: strs(self.aliases@),
            serde: match self.serde {
                Some(s) => Some(s@),
                None => None,
            },
            doc_string: opt_view(self.doc_string),
            passthrough: strs(self.passthrough@),
        }
    }
}

/// One item of a variant's `serde(...)` option.
pub open spec fn spec_variant_serde_arg(st: VariantSerdeView, arg: AttrArg) -> Result<VariantSerdeView, Messages> {
    let key = arg.key@;
    if key == "rename"@ {
        match spec_req_str(arg.value) {
            Err(e) => Err(e),
            Ok(n) => match set_once(key, st.rename, Some(n)) {
                Err(e) => Err(e),
                Ok(x) => Ok(VariantSerdeView { rename: x, ..st }),
            },
        }
    } else if key == "alias"@ {
        match spec_req_str(arg.value) {
            Err(e) => Err(e),
            Ok(n) => Ok(VariantSerdeView { aliases: st.aliases.push(n), ..st }),
        }
    } else if key == "skip"@ {
        then_comma(arg.value, VariantSerdeView { skip: true, ..st })
    } else {
        Err(seq!["unrecognized conf(serde) option"@])
    }
}

/// The items of a variant's `serde(...)` option from position `i` on.
pub open spec fn spec_variant_serde_args(st: VariantSerdeView, items: Seq<AttrArg>, i: int) -> Result<
    VariantSerdeView,
    Messages,
>
    decreases items.len() - i,
{
    if i >= items.len() {
        Ok(st)
    } else {
        match spec_variant_serde_arg(st, items[i]) {
            Err(e) => Err(e),
            Ok(s) => spec_variant_serde_args(s, items, i + 1),
        }
    }
}

/// No serde options.
pub open spec fn empty_variant_serde() -> VariantSerdeView {
    VariantSerdeView { rename: None, aliases: Seq::empty(), skip: false }
}

/// A variant's `serde` option, from what follows the key.
pub open spec fn spec_variant_serde(v: AttrValue) -> Result<VariantSerdeView, Messages> {
    match v {
        AttrValue::Nested(items) => if items@.len() == 0 {
            Err(seq![expected_nested()])
        } else {
            spec_variant_serde_args(empty_variant_serde(), items@, 0)
        },
        AttrValue::ParenExpr => Err(seq![unexpected_token()]),
        _ => Ok(empty_variant_serde()),
    }
}

/// The state of reading a variant's attributes: the variant so far and the `name` override.
pub struct VariantState {
    pub item: VariantView,
    pub name_override: Option<Seq<char>>,
}

/// The items of a variant's attribute from position `i` on. For a variant with named fields,
/// the first item that the variant does not recognize takes the rest of the attribute to its
/// structure.
pub open spec fn spec_variant_args(st: VariantState, args: Seq<AttrArg>, i: int) -> Result<VariantState, Messages>
    decreases args.len() - i,
{
    if i >= args.len() {
        Ok(st)
    } else {
        let arg = args[i];
        let key = arg.key@;
        if key == "subcommand"@ {
            match then_comma(arg.value, st) {
                Err(e) => Err(e),
                Ok(s) => spec_variant_args(s, args, i + 1),
            }
        } else if key == "name"@ {
            match spec_req_str(arg.value) {
                Err(e) => Err(e),
                Ok(n) => match set_once(key, st.name_override, Some(n)) {
                    Err(e) => Err(e),
                    Ok(x) => spec_variant_args(VariantState { name_override: x, ..st }, args, i + 1),
                },
            }
        } else if key == "alias"@ {
            match spec_req_str(arg.value) {
                Err(e) => Err(e),
                Ok(n) => spec_variant_args(
                    VariantState { item: VariantView { aliases: st.item.aliases.push(n), ..st.item }, ..st },
                    args,
                    i + 1,
                ),
            }
        } else if key == "serde"@ {
            match spec_variant_serde(arg.value) {
                Err(e) => Err(e),
                Ok(sd) => match set_once(key, st.item.serde, Some(sd)) {
                    Err(e) => Err(e),
                    Ok(x) => match then_comma(
                        arg.value,
                        VariantState { item: VariantView { serde: x, ..st.item }, ..st },
                    ) {
                        Err(e) => Err(e),
                        Ok(s) => spec_variant_args(s, args, i + 1),
                    },
                },
            }
        } else if st.item.has_named_fields {
            Ok(
                VariantState {
                    item: VariantView { passthrough: st.item.passthrough.push(key), ..st.item },
                    ..st
                },
            )
        } else {
            Err(seq!["unrecognized conf subcommands option"@])
        }
    }
}

/// The attributes of a variant from position `i` on.
pub open spec fn spec_variant_attrs(st: VariantState, attrs: Seq<Attr>, i: int) -> Result<VariantState, Messages>
    decreases attrs.len() - i,
{
    if i >= attrs.len() {
        Ok(st)
    } else {
        let a = attrs[i];
        match spec_doc_step(st.item.doc_string, a) {
            Err(e) => Err(e),
            Ok(d) => {
                let st1 = VariantState { item: VariantView { doc_string: d, ..st.item }, ..st };
                if attr_name(a) == "conf"@ || attr_name(a) == "subcommands"@ {
                    match a {
                        Attr::List(_, args) => if args@.len() == 0 {
                            Err(seq![expected_nested()])
                        } else {
                            match spec_variant_args(st1, args@, 0) {
                                Err(e) => Err(e),
                                Ok(s) => spec_variant_attrs(s, attrs, i + 1),
                            }
                        },
                        _ => Err(not_list_error(a)),
                    }
                } else {
                    spec_variant_attrs(st1, attrs, i + 1)
                }
            },
        }
    }
}

/// The message for a variant with a number of unnamed fields other than one.
pub open spec fn unnamed_fields_message(variant: Seq<char>, n: nat) -> Seq<char> {
    "Subcommands variant '"@ + variant + "' must contain zero or one unnamed fields which implement Conf, found "@
        + decimal(n)
}

/// What a variant's fields give: whether it has one unnamed field, whether that field's type
/// is an `Option`, and whether it has named fields.
pub open spec fn spec_variant_shape(variant: VariantInput) -> Result<(bool, bool, bool), Messages> {
    match variant.fields {
        VariantFields::Unit => Ok((false, false, false)),
        VariantFields::Unnamed(types) => if types@.len() == 1 {
            match spec_type_is_generic("Option"@, types@[0]) {
                Err(e) => Err(e),
                Ok(o) => Ok((true, o is Some, false)),
            }
        } else {
            Err(seq![unnamed_fields_message(variant.name@, types@.len())])
        },
        VariantFields::Named => Ok((false, false, true)),
    }
}

/// The variant after its attributes are read: the command name is the `name` given, if any.
pub open spec fn finish_variant(s: VariantState) -> VariantView {
    match s.name_override {
        Some(n) => VariantView { command_name: n, ..s.item },
        None => s.item,
    }
}

/// A variant read by the derive: its shape, then its attributes; its command name is the
/// `name` given, else the variant's name in kebab case.
pub open spec fn spec_variant_item(variant: VariantInput, enum_name: Seq<char>) -> Result<VariantView, Messages> {
    match spec_variant_shape(variant) {
        Err(e) => Err(e),
        Ok((has_type, is_optional, named)) => {
            let init = VariantState {
                item: VariantView {
                    enum_name,
                    variant_name: variant.name@,
                    has_type,
                    is_optional_type: is_optional,
                    has_named_fields: named,
                    command_name: kebab_case(variant.name@),
                    aliases: Seq::empty(),
                    serde: None,
                    doc_string: None,
                    passthrough: Seq::empty(),
                },
                name_override: None,
            };
            match spec_variant_attrs(init, variant.attrs@, 0) {
                Err(e) => Err(e),
                Ok(s) => Ok(finish_variant(s)),
            }
        },
    }
}

fn variant_serde(v: &AttrValue) -> (r: Result<VariantSerde, DeriveError>)
    ensures
        match r {
            Ok(s) => spec_variant_serde(*v) == Ok::<VariantSerdeView, Messages>(s@),
            Err(e) => spec_variant_serde(*v) == Err::<VariantSerdeView, Messages>(messages_view(e)),
        },
{
    let mut st = VariantSerde { rename: None, aliases: Vec::new(), skip: false };
    assert(strs(st.aliases@) =~= Seq::<Seq<char>>::empty());
    assert(st@ =~= empty_variant_serde());
    match v {
        AttrValue::Nested(items) => {
            let n = items.len();
            if n == 0 {
                return Err(derive_error("expected nested attribute"));
            }
            let mut i: usize = 0;
            while i < n
                invariant
                    n == items@.len(),
                    *v == AttrValue::Nested(*items),
                    i <= n,
                    spec_variant_serde_args(empty_variant_serde(), items@, 0)
                        == spec_variant_serde_args(st@, items@, i as int),
                decreases n - i,
            {
                let arg = &items[i];
                let key = arg.key.as_str();
                if str_eq(key, "rename") {
                    let n2 = req_str(&arg.value)?;
                    if st.rename.is_some() {
                        return Err(twice(key));
                    }
                    st.rename = Some(n2);
                } else if str_eq(key, "alias") {
                    let n2 = req_str(&arg.value)?;
                    let ghost before = strs(st.aliases@);
                    let ghost nv = n2@;
                    st.aliases.push(n2);
                    assert(strs(st.aliases@) =~= before.push(nv));
                } else if str_eq(key, "skip") {
                    if has_eq_value(&arg.value) {
                        return Err(derive_error("expected `,`"));
                    }
                    st.skip = true;
                } else {
                    return Err(derive_error("unrecognized conf(serde) option"));
                }
                i = i + 1;
            }
            Ok(st)
        },
        AttrValue::ParenExpr => Err(
            derive_error("unexpected token in nested attribute, expected ident"),
        ),
        _ => Ok(st),
    }
}

/// `has_eq`.
fn has_eq_value(v: &AttrValue) -> (r: bool)
    ensures
        r == has_eq(*v),
{
    match v {
        AttrValue::Lit(_) | AttrValue::Array(_) | AttrValue::Expr => true,
        _ => false,
    }
}

impl VariantItem {
    /// A variant of the enum `enum_name` read by the derive (see `spec_variant_item`).
    pub fn new(variant: &VariantInput, enum_name: &str) -> (r: Result<VariantItem, DeriveError>)
        ensures
            match r {
                Ok(item) => spec_variant_item(*variant, enum_name@) == Ok::<VariantView, Messages>(
                    item@,
                ),
                Err(e) => spec_variant_item(*variant, enum_name@) == Err::<VariantView, Messages>(
                    messages_view(e),
                ),
            },
    {
        let (has_type, is_optional, named) = match &variant.fields {
            VariantFields::Unit => (false, false, false),
            VariantFields::Unnamed(types) => {
                if types.len() == 1 {
                    let o = type_is_generic("Option", &types[0])?;
                    (true, o.is_some(), false)
                } else {
                    let mut m = string_of("Subcommands variant '");
                    m.append(variant.name.as_str());
                    m.append("' must contain zero or one unnamed fields which implement Conf, found ");
                    append_decimal(&mut m, types.len());
                    return Err(derive_error(m.as_str()));
                }
            },
            VariantFields::Named => (false, false, true),
        };
        let mut item = VariantItem {
            enum_name: string_of(enum_name),
            variant_name: variant.name.clone(),
            has_type,
            is_optional_type: is_optional,
            has_named_fields: named,
            command_name: crate::naming::to_kebab(variant.name.as_str()),
            aliases: Vec::new(),
            serde: None,
            doc_string: None,
            passthrough: Vec::new(),
        };
        let mut name_override: Option<String> = None;
        assert(strs(item.aliases@) =~= Seq::<Seq<char>>::empty());
        assert(strs(item.passthrough@) =~= Seq::<Seq<char>>::empty());
        let ghost start = VariantState { item: item@, name_override: None };
        let attrs = &variant.attrs;
        assert(spec_variant_item(*variant, enum_name@) == match spec_variant_attrs(start, attrs@, 0) {
            Err(e) => Err(e),
            Ok(x) => Ok::<VariantView, Messages>(finish_variant(x)),
        });
        let n = attrs.len();
        let mut i: usize = 0;
        while i < n
            invariant
                n == attrs@.len(),
                i <= n,
                spec_variant_item(*variant, enum_name@) == match spec_variant_attrs(start, attrs@, 0) {
                    Err(e) => Err(e),
                    Ok(x) => Ok::<VariantView, Messages>(finish_variant(x)),
                },
                spec_variant_attrs(start, attrs@, 0) == spec_variant_attrs(
                    VariantState { item: item@, name_override: opt_view(name_override) },
                    attrs@,
                    i as int,
                ),
            decreases n - i,
        {
            let a = &attrs[i];
            doc_step(&mut item.doc_string, a)?;
            let an = get_attr_name(a);
            if str_eq(an, "conf") || str_eq(an, "subcommands") {
                match a {
                    Attr::List(_, args) => {
                        let m = args.len();
                        if m == 0 {
                            return Err(derive_error("expected nested attribute"));
                        }
                        let ghost st1 = VariantState { item: item@, name_override: opt_view(name_override) };
                        let mut j: usize = 0;
                        let mut stop = false;
                        while j < m && !stop
                            invariant
                                m == args@.len(),
                                j <= m,
                                spec_variant_item(*variant, enum_name@) == match spec_variant_attrs(start, attrs@, 0) {
                                    Err(e) => Err(e),
                                    Ok(x) => Ok::<VariantView, Messages>(finish_variant(x)),
                                },
                                spec_variant_attrs(start, attrs@, 0) == match spec_variant_args(
                                    st1,
                                    args@,
                                    0,
                                ) {
                                    Err(e) => Err(e),
                                    Ok(x) => spec_variant_attrs(x, attrs@, i + 1),
                                },
                                stop ==> spec_variant_args(st1, args@, 0) == Ok::<VariantState, Messages>(
                                    VariantState { item: item@, name_override: opt_view(name_override) },
                                ),
                                !stop ==> spec_variant_args(st1, args@, 0) == spec_variant_args(
                                    VariantState { item: item@, name_override: opt_view(name_override) },
                                    args@,
                                    j as int,
                                ),
                            decreases m - j + if stop {
                                0int
                            } else {
                                1int
                            },
                        {
                            let arg = &args[j];
                            let key = arg.key.as_str();
                            if str_eq(key, "subcommand") {
                                if has_eq_value(&arg.value) {
                                    return Err(derive_error("expected `,`"));
                                }
                            } else if str_eq(key, "name") {
                                let n2 = req_str(&arg.value)?;
                                if name_override.is_some() {
                                    return Err(twice(key));
                                }
                                name_override = Some(n2);
                            } else if str_eq(key, "alias") {
                                let n2 = req_str(&arg.value)?;
                                let ghost before = strs(item.aliases@);
                                let ghost nv = n2@;
                                item.aliases.push(n2);
                                assert(strs(item.aliases@) =~= before.push(nv));
                            } else if str_eq(key, "serde") {
                                let sd = variant_serde(&arg.value)?;
                                if item.serde.is_some() {
                                    return Err(twice(key));
                                }
                                item.serde = Some(sd);
                                if has_eq_value(&arg.value) {
                                    return Err(derive_error("expected `,`"));
                                }
                            } else if item.has_named_fields {
                                let ghost before = strs(item.passthrough@);
                                item.passthrough.push(arg.key.clone());
                                assert(strs(item.passthrough@) =~= before.push(arg.key@));
                                stop = true;
                            } else {
                                return Err(derive_error("unrecognized conf subcommands option"));
                            }
                            if !stop {
                                j = j + 1;
                            }
                        }
                    },
                    _ => {
                        return Err(not_list(a));
                    },
                }
            }
            i = i + 1;
        }
        if let Some(n2) = name_override {
            item.command_name = n2;
        }
        Ok(item)
    }
}

/// The `#[conf(...)]` options of a `Subcommands` enum.
pub struct EnumItem {
    pub enum_ident: String,
    pub serde: bool,
    pub doc_string: Option<String>,
}

/// The options of an enum from its attributes from position `i` on: `serde` enables documents;
/// any other item is an error.
pub open spec fn spec_enum_attrs(serde: bool, doc: Option<Seq<char>>, attrs: Seq<Attr>, i: int) -> Result<
    (bool, Option<Seq<char>>),
    Messages,
>
    decreases attrs.len() - i, 1int,
{
    if i >= attrs.len() {
        Ok((serde, doc))
    } else {
        let a = attrs[i];
        match spec_doc_step(doc, a) {
            Err(e) => Err(e),
            Ok(d) => if attr_name(a) == "conf"@ {
                match a {
                    Attr::List(_, args) => if args@.len() == 0 {
                        Err(seq![expected_nested()])
                    } else {
                        spec_enum_args(serde, d, args@, 0, attrs, i)
                    },
                    _ => Err(not_list_error(a)),
                }
            } else {
                spec_enum_attrs(serde, d, attrs, i + 1)
            },
        }
    }
}

/// The items of the enum's attribute `i` from position `j` on, then its remaining attributes.
pub open spec fn spec_enum_args(serde: bool, doc: Option<Seq<char>>, args: Seq<AttrArg>, j: int, attrs: Seq<Attr>, i: int) -> Result<
    (bool, Option<Seq<char>>),
    Messages,
>
    decreases attrs.len() - i, 0int, args.len() - j,
{
    if i >= attrs.len() {
        Ok((serde, doc))
    } else if j >= args.len() {
        spec_enum_attrs(serde, doc, attrs, i + 1)
    } else if args[j].key@ == "serde"@ {
        if has_eq(args[j].value) {
            Err(seq!["expected `,`"@])
        } else {
            spec_enum_args(true, doc, args, j + 1, attrs, i)
        }
    } else {
        Err(seq!["unrecognized conf option"@])
    }
}

impl EnumItem {
    /// The options of the enum `enum_ident` from its attributes (see `spec_enum_attrs`).
    pub fn new(enum_ident: &str, attrs: &Vec<Attr>) -> (r: Result<EnumItem, DeriveError>)
        ensures
            match r {
                Ok(item) => spec_enum_attrs(false, None, attrs@, 0) == Ok::<
                    (bool, Option<Seq<char>>),
                    Messages,
                >((item.serde, opt_view(item.doc_string))) && item.enum_ident@ == enum_ident@,
                Err(e) => spec_enum_attrs(false, None, attrs@, 0) == Err::<
                    (bool, Option<Seq<char>>),
                    Messages,
                >(messages_view(e)),
            },
    {
        let mut serde = false;
        let mut doc: Option<String> = None;
        let n = attrs.len();
        let mut i: usize = 0;
        while i < n
            invariant
                n == attrs@.len(),
                i <= n,
                spec_enum_attrs(false, None, attrs@, 0) == spec_enum_attrs(
                    serde,
                    opt_view(doc),
                    attrs@,
                    i as int,
                ),
            decreases n - i,
        {
            let a = &attrs[i];
            doc_step(&mut doc, a)?;
            if str_eq(get_attr_name(a), "conf") {
                match a {
                    Attr::List(_, args) => {
                        let m = args.len();
                        if m == 0 {
                            return Err(derive_error("expected nested attribute"));
                        }
                        let mut j: usize = 0;
                        while j < m
                            invariant
                                m == args@.len(),
                                n == attrs@.len(),
                                i < n,
                                attrs@[i as int] == Attr::List(attrs@[i as int]->List_0, *args),
                                j <= m,
                                spec_enum_attrs(false, None, attrs@, 0) == spec_enum_args(
                                    serde,
                                    opt_view(doc),
                                    args@,
                                    j as int,
                                    attrs@,
                                    i as int,
                                ),
                            decreases m - j,
                        {
                            if str_eq(args[j].key.as_str(), "serde") {
                                if has_eq_value(&args[j].value) {
                                    return Err(derive_error("expected `,`"));
                                }
                                serde = true;
                            } else {
                                return Err(derive_error("unrecognized conf option"));
                            }
                            j = j + 1;
                        }
                    },
                    _ => {
                        return Err(not_list(a));
                    },
                }
            }
            i = i + 1;
        }
        Ok(EnumItem { enum_ident: string_of(enum_ident), serde, doc_string: doc })
    }
}

/// The variants of an enum read from position `i` on: the first error, or every variant.
pub open spec fn spec_read_variants(variants: Seq<VariantInput>, enum_name: Seq<char>, i: int) -> Result<
    Seq<VariantView>,
    Messages,
>
    decreases variants.len() - i,
{
    if i >= variants.len() {
        Ok(Seq::empty())
    } else {
        match spec_variant_item(variants[i], enum_name) {
            Err(e) => Err(e),
            Ok(v) => match spec_read_variants(variants, enum_name, i + 1) {
                Err(e) => Err(e),
                Ok(rest) => Ok(seq![v] + rest),
            },
        }
    }
}

/// The content of a list of variants.
pub open spec fn variant_items_view(v: Seq<VariantItem>) -> Seq<VariantView> {
    v.map_values(|x: VariantItem| x@)
}

proof fn lemma_read_variants_ok(variants: Seq<VariantInput>, enum_name: Seq<char>, i: int, v: Seq<VariantView>)
    requires
        0 <= i <= variants.len(),
        v.len() == variants.len(),
        forall|k: int| 0 <= k < variants.len() ==> spec_variant_item(variants[k], enum_name) == Ok::<VariantView, Messages>(#[trigger] v[k]),
    ensures
        spec_read_variants(variants, enum_name, i) == Ok::<Seq<VariantView>, Messages>(v.subrange(i, variants.len() as int)),
    decreases variants.len() - i,
{
    if i < variants.len() {
        lemma_read_variants_ok(variants, enum_name, i + 1, v);
        assert(v.subrange(i, variants.len() as int) =~= seq![v[i]] + v.subrange(i + 1, variants.len() as int));
    } else {
        assert(v.subrange(i, variants.len() as int) =~= Seq::<VariantView>::empty());
    }
}

proof fn lemma_read_variants_error(variants: Seq<VariantInput>, enum_name: Seq<char>, j: int, i: int, m: Messages)
    requires
        0 <= j <= i < variants.len(),
        forall|k: int| 0 <= k < i ==> (#[trigger] spec_variant_item(variants[k], enum_name)) is Ok,
        spec_variant_item(variants[i], enum_name) == Err::<VariantView, Messages>(m),
    ensures
        spec_read_variants(variants, enum_name, j) == Err::<Seq<VariantView>, Messages>(m),
    decreases i - j,
{
    if j < i {
        lemma_read_variants_error(variants, enum_name, j + 1, i, m);
        assert(spec_variant_item(variants[j], enum_name) is Ok);
    }
}

/// An enum with `#[derive(Subcommands)]` read by the derive: its own options first, then its
/// variants in order; the first error stops it.
pub fn read_subcommands_enum(enum_ident: &str, attrs: &Vec<Attr>, variants: &Vec<VariantInput>) -> (r: Result<
    (EnumItem, Vec<VariantItem>),
    DeriveError,
>)
    ensures
        match r {
            Ok((e, v)) => spec_enum_attrs(false, None, attrs@, 0) == Ok::<
                (bool, Option<Seq<char>>),
                Messages,
            >((e.serde, opt_view(e.doc_string))) && e.enum_ident@ == enum_ident@
                && spec_read_variants(variants@, enum_ident@, 0) == Ok::<Seq<VariantView>, Messages>(
                variant_items_view(v@),
            ),
            Err(err) => match spec_enum_attrs(false, None, attrs@, 0) {
                Err(m) => m == messages_view(err),
                Ok(_) => spec_read_variants(variants@, enum_ident@, 0) == Err::<
                    Seq<VariantView>,
                    Messages,
                >(messages_view(err)),
            },
        },
{
    let enum_item = EnumItem::new(enum_ident, attrs)?;
    let n = variants.len();
    let mut items: Vec<VariantItem> = Vec::new();
    let mut i: usize = 0;
    while i < n
        invariant
            n == variants@.len(),
            i <= n,
            spec_enum_attrs(false, None, attrs@, 0) == Ok::<(bool, Option<Seq<char>>), Messages>(
                (enum_item.serde, opt_view(enum_item.doc_string)),
            ),
            enum_item.enum_ident@ == enum_ident@,
            forall|k: int|
                0 <= k < i ==> spec_variant_item(variants@[k], enum_ident@) == Ok::<VariantView, Messages>(
                    #[trigger] variant_items_view(items@)[k],
                ),
            items@.len() == i,
        decreases n - i,
    {
        match VariantItem::new(&variants[i], enum_ident) {
            Ok(v) => {
                let ghost before = variant_items_view(items@);
                let ghost vv = v@;
                items.push(v);
                assert(variant_items_view(items@) =~= before.push(vv));
            },
            Err(e) => {
                proof {
                    assert forall|k: int| 0 <= k < i implies (#[trigger] spec_variant_item(
                        variants@[k],
                        enum_ident@,
                    )) is Ok by {
                        assert(spec_variant_item(variants@[k], enum_ident@) == Ok::<
                            VariantView,
                            Messages,
                        >(variant_items_view(items@)[k]));
                    }
                    lemma_read_variants_error(variants@, enum_ident@, 0, i as int, messages_view(e));
                }
                return Err(e);
            },
        }
        i = i + 1;
    }
    proof {
        lemma_read_variants_ok(variants@, enum_ident@, 0, variant_items_view(items@));
        assert(variant_items_view(items@).subrange(0, n as int) =~= variant_items_view(items@));
    }
    Ok((enum_item, items))
}

impl VariantItem {
    /// The name of this variant in a document: its `serde(rename)`, else its name in snake case.
    pub fn serde_name(&self) -> (r: String)
        ensures
            r@ == match self@.serde {
                Some(sd) => match sd.rename {
                    Some(n) => n,
                    None => snake_case(self@.variant_name),
                },
                None => snake_case(self@.variant_name),
            },
    {
        match &self.serde {
            Some(sd) => match &sd.rename {
                Some(n) => n.clone(),
                None => to_snake(self.variant_name.as_str()),
            },
            None => to_snake(self.variant_name.as_str()),
        }
    }

    /// Whether documents skip this variant.
    pub fn serde_skip(&self) -> (r: bool)
        ensures
            r == (self@.serde matches Some(sd) && sd.skip),
    {
        match &self.serde {
            Some(sd) => sd.skip,
            None => false,
        }
    }

    /// Every name of this subcommand: its command name, then its aliases.
    pub fn all_command_names(&self) -> (r: Vec<String>)
        ensures
            strs(r@) == seq![self@.command_name] + self@.aliases,
    {
        let mut r: Vec<String> = Vec::new();
        r.push(self.command_name.clone());
        let n = self.aliases.len();
        let mut i: usize = 0;
        while i < n
            invariant
                n == self.aliases@.len(),
                i <= n,
                strs(r@) == seq![self@.command_name] + self@.aliases.take(i as int),
            decreases n - i,
        {
            let ghost before = strs(r@);
            r.push(self.aliases[i].clone());
            assert(strs(r@) =~= before.push(self.aliases@[i as int]@));
            assert(self@.aliases.take(i + 1) =~= self@.aliases.take(i as int).push(self.aliases@[i as int]@));
            i = i + 1;
        }
        assert(self@.aliases.take(n as int) =~= self@.aliases);
        r
    }

    /// The name of the structure generated for a variant with named fields:
    /// `__<enum>_<variant>`.
    pub fn generated_struct_name(&self) -> (r: String)
        ensures
            r@ == "__"@ + self@.enum_name + "_"@ + self@.variant_name,
    {
        let mut r = string_of("__");
        r.append(self.enum_name.as_str());
        r.append("_");
        r.append(self.variant_name.as_str());
        r
    }

    /// The name of this variant in messages: `<enum>::<variant>`.
    pub fn display_name(&self) -> (r: String)
        ensures
            r@ == self@.enum_name + "::"@ + self@.variant_name,
    {
        let mut r = self.enum_name.clone();
        r.append("::");
        r.append(self.variant_name.as_str());
        r
    }
}

} // verus!
