//! How the `Conf` derive reads the attributes of the structure itself: its about text and
//! name, whether a help flag is generated, an env prefix for all its options, constraints over
//! groups of fields, and a validation predicate.
use vstd::prelude::*;
use crate::derive_attrs::{
    Attr, AttrArg, AttrValue, DeriveError, Messages, attr_name, derive_error, doc_step, err_view,
    expected_comma, get_attr_name, has_eq, messages_view, not_list, not_list_error, req_expr,
    req_str, spec_doc_step, spec_req_expr, spec_req_str, twice,
};
use crate::derive_attrs::{TypeShape, spec_type_is_bool, spec_type_is_generic, type_is_bool, type_is_generic};
use crate::derive_fields::{
    FieldInput, FieldItem, FieldItemView, FieldKind, expected_nested, set_once, spec_read_field,
    strs, then_comma,
};
use crate::program_option::{clone_opt_string, opt_view};
use crate::text::{str_eq, string_of};

verus! {

/// A constraint over a group of fields.
#[derive(Clone, Copy, Debug, PartialEq, Eq, Structural)]
pub enum FieldConstraint {
    /// Exactly one of the fields is given (`one_of_fields`).
    ExactlyOne,
    /// At most one of the fields is given (`at_most_one_of_fields`).
    AtMostOne,
    /// At least one of the fields is given (`at_least_one_of_fields`).
    AtLeastOne,
}

/// The `#[conf(...)]` options of a structure.
pub struct StructItem {
    pub struct_ident: String,
    pub about: Option<String>,
    pub name: Option<String>,
    pub no_help_flag: bool,
    pub env_prefix: Option<String>,
    pub one_of_fields: Vec<(FieldConstraint, Vec<String>)>,
    pub validation_predicate: Option<String>,
    pub doc_string: Option<String>,
}

/// The content of a `StructItem`.
pub struct StructView {
    pub struct_ident: Seq<char>,
    pub about: Option<Seq<char>>,
    pub name: Option<Seq<char>>,
    pub no_help_flag: bool,
    pub env_prefix: Option<Seq<char>>,
    pub one_of_fields: Seq<(FieldConstraint, Seq<Seq<char>>)>,
    pub validation_predicate: Option<Seq<char>>,
    pub doc_string: Option<Seq<char>>,
}

/// The content of a list of constraints.
pub open spec fn constraints_view(v: Seq<(FieldConstraint, Vec<String>)>) -> Seq<(FieldConstraint, Seq<Seq<char>>)> {
    v.map_values(|c: (FieldConstraint, Vec<String>)| (c.0, strs(c.1@)))
}

impl View for StructItem {
    type V = StructView;

    open spec fn view(&self) -> StructView {
        StructView {
            struct_ident: self.struct_ident@,
            about: opt_view(self.about),
            name: opt_view(self.name),
            no_help_flag: self.no_help_flag,
            env_prefix: opt_view(self.env_prefix),
            one_of_fields: constraints_view(self.one_of_fields@),
            validation_predicate: opt_view(self.validation_predicate),
            doc_string: opt_view(self.doc_string),
        }
    }
}

/// The constraint named by a key, if it names one.
pub open spec fn constraint_of(key: Seq<char>) -> Option<FieldConstraint> {
    if key == "one_of_fields"@ {
        Some(FieldConstraint::ExactlyOne)
    } else if key == "at_most_one_of_fields"@ {
        Some(FieldConstraint::AtMostOne)
    } else if key == "at_least_one_of_fields"@ {
        Some(FieldConstraint::AtLeastOne)
    } else {
        None
    }
}

/// Whether the items are bare identifiers.
pub open spec fn all_bare(items: Seq<AttrArg>) -> bool {
    forall|i: int| 0 <= i < items.len() ==> #[trigger] items[i].value is Absent
}

/// The field names of a constraint, from what follows its key: a parenthesized list of at
/// least two identifiers.
pub open spec fn spec_field_list(v: AttrValue) -> Result<Seq<Seq<char>>, Messages> {
    match v {
        AttrValue::Nested(items) => if items@.len() == 0 {
            Err(seq!["expected identifier"@])
        } else if !all_bare(items@) {
            Err(seq![expected_comma()])
        } else if items@.len() < 2 {
            Err(seq!["invalid to create a constraint over fewer than two fields"@])
        } else {
            Ok(items@.map_values(|a: AttrArg| a.key@))
        },
        AttrValue::ParenExpr => Err(seq!["expected identifier"@]),
        _ => Err(seq!["expected parentheses"@]),
    }
}

/// One item of a structure's `#[conf(...)]` attribute: the options after it, or its error.
pub open spec fn spec_struct_arg(st: StructView, arg: AttrArg) -> Result<StructView, Messages> {
    let key = arg.key@;
    let v = arg.value;
    if key == "no_help_flag"@ {
        then_comma(v, StructView { no_help_flag: true, ..st })
    } else if key == "about"@ {
        match spec_req_str(v) {
            Err(e) => Err(e),
            Ok(s) => match set_once(key, st.about, Some(s)) {
                Err(e) => Err(e),
                Ok(x) => Ok(StructView { about: x, ..st }),
            },
        }
    } else if key == "name"@ {
        match spec_req_str(v) {
            Err(e) => Err(e),
            Ok(s) => match set_once(key, st.name, Some(s)) {
                Err(e) => Err(e),
                Ok(x) => Ok(StructView { name: x, ..st }),
            },
        }
    } else if key == "env_prefix"@ {
        match spec_req_str(v) {
            Err(e) => Err(e),
            Ok(s) => match set_once(key, st.env_prefix, Some(s)) {
                Err(e) => Err(e),
                Ok(x) => Ok(StructView { env_prefix: x, ..st }),
            },
        }
    } else if key == "validation_predicate"@ {
        match spec_req_expr(arg) {
            Err(e) => Err(e),
            Ok(s) => match set_once(key, st.validation_predicate, Some(s)) {
                Err(e) => Err(e),
                Ok(x) => Ok(StructView { validation_predicate: x, ..st }),
            },
        }
    } else if constraint_of(key) is Some {
        match spec_field_list(v) {
            Err(e) => Err(e),
            Ok(fields) => Ok(
                StructView {
                    one_of_fields: st.one_of_fields.push((constraint_of(key).unwrap(), fields)),
                    ..st
                },
            ),
        }
    } else {
        Err(seq!["unrecognized conf option"@])
    }
}

/// The items of an attribute from position `i` on.
pub open spec fn spec_struct_args(st: StructView, args: Seq<AttrArg>, i: int) -> Result<StructView, Messages>
    decreases args.len() - i,
{
    if i >= args.len() {
        Ok(st)
    } else {
        match spec_struct_arg(st, args[i]) {
            Err(e) => Err(e),
            Ok(s) => spec_struct_args(s, args, i + 1),
        }
    }
}

/// The attributes of a structure from position `i` on: doc comments are appended to its
/// description, and the items of `#[conf(...)]` attributes set options, in order.
pub open spec fn spec_struct_attrs(st: StructView, attrs: Seq<Attr>, i: int) -> Result<StructView, Messages>
    decreases attrs.len() - i,
{
    if i >= attrs.len() {
        Ok(st)
    } else {
        let a = attrs[i];
        match spec_doc_step(st.doc_string, a) {
            Err(e) => Err(e),
            Ok(d) => {
                let st1 = StructView { doc_string: d, ..st };
                if attr_name(a) == "conf"@ {
                    match a {
                        Attr::List(_, args) => if args@.len() == 0 {
                            Err(seq![expected_nested()])
                        } else {
                            match spec_struct_args(st1, args@, 0) {
                                Err(e) => Err(e),
                                Ok(s) => spec_struct_attrs(s, attrs, i + 1),
                            }
                        },
                        _ => Err(not_list_error(a)),
                    }
                } else {
                    spec_struct_attrs(st1, attrs, i + 1)
                }
            },
        }
    }
}

/// A structure's options before its attributes are read.
pub open spec fn initial_struct(ident: Seq<char>) -> StructView {
    StructView {
        struct_ident: ident,
        about: None,
        name: None,
        no_help_flag: false,
        env_prefix: None,
        one_of_fields: Seq::empty(),
        validation_predicate: None,
        doc_string: None,
    }
}

/// The result of a step as a spec result.
pub open spec fn struct_step_view(r: Result<(), DeriveError>, after: StructView) -> Result<StructView, Messages> {
    match r {
        Ok(_) => Ok(after),
        Err(e) => Err(messages_view(e)),
    }
}

fn field_list(v: &AttrValue) -> (r: Result<Vec<String>, DeriveError>)
    ensures
        match r {
            Ok(f) => spec_field_list(*v) == Ok::<Seq<Seq<char>>, Messages>(strs(f@)),
            Err(e) => spec_field_list(*v) == Err::<Seq<Seq<char>>, Messages>(messages_view(e)),
        },
{
    match v {
        AttrValue::Nested(items) => {
            let n = items.len();
            if n == 0 {
                return Err(derive_error("expected identifier"));
            }
            let mut out: Vec<String> = Vec::new();
            let mut i: usize = 0;
            while i < n
                invariant
                    n == items@.len(),
                    *v == AttrValue::Nested(*items),
                    i <= n,
                    forall|k: int| 0 <= k < i ==> #[trigger] items@[k].value is Absent,
                    strs(out@) == items@.take(i as int).map_values(|a: AttrArg| a.key@),
                decreases n - i,
            {
                match &items[i].value {
                    AttrValue::Absent => {
                        let ghost before = strs(out@);
                        out.push(items[i].key.clone());
                        assert(strs(out@) =~= before.push(items@[i as int].key@));
                        assert(items@.take(i + 1).map_values(|a: AttrArg| a.key@) =~= items@.take(
                            i as int,
                        ).map_values(|a: AttrArg| a.key@).push(items@[i as int].key@));
                    },
                    _ => {
                        assert(!all_bare(items@));
                        return Err(derive_error("expected `,`"));
                    },
                }
                i = i + 1;
            }
            assert(items@.take(n as int) =~= items@);
            if n < 2 {
                return Err(derive_error("invalid to create a constraint over fewer than two fields"));
            }
            Ok(out)
        },
        AttrValue::ParenExpr => Err(derive_error("expected identifier")),
        _ => Err(derive_error("expected parentheses")),
    }
}

fn constraint_of_key(key: &str) -> (r: Option<FieldConstraint>)
    ensures
        r == constraint_of(key@),
{
    if str_eq(key, "one_of_fields") {
        Some(FieldConstraint::ExactlyOne)
    } else if str_eq(key, "at_most_one_of_fields") {
        Some(FieldConstraint::AtMostOne)
    } else if str_eq(key, "at_least_one_of_fields") {
        Some(FieldConstraint::AtLeastOne)
    } else {
        None
    }
}

fn struct_arg(st: &mut StructItem, arg: &AttrArg) -> (r: Result<(), DeriveError>)
    ensures
        struct_step_view(r, final(st)@) == spec_struct_arg(old(st)@, *arg),
{
    let key = arg.key.as_str();
    let v = &arg.value;
    if str_eq(key, "no_help_flag") {
        st.no_help_flag = true;
        match v {
            AttrValue::Lit(_) | AttrValue::Array(_) | AttrValue::Expr => Err(derive_error("expected `,`")),
            _ => Ok(()),
        }
    } else if str_eq(key, "about") {
        let s = req_str(v)?;
        if st.about.is_some() {
            return Err(twice(key));
        }
        st.about = Some(s);
        Ok(())
    } else if str_eq(key, "name") {
        let s = req_str(v)?;
        if st.name.is_some() {
            return Err(twice(key));
        }
        st.name = Some(s);
        Ok(())
    } else if str_eq(key, "env_prefix") {
        let s = req_str(v)?;
        if st.env_prefix.is_some() {
            return Err(twice(key));
        }
        st.env_prefix = Some(s);
        Ok(())
    } else if str_eq(key, "validation_predicate") {
        let s = req_expr(arg)?;
        if st.validation_predicate.is_some() {
            return Err(twice(key));
        }
        st.validation_predicate = Some(s);
        Ok(())
    } else if let Some(c) = constraint_of_key(key) {
        let fields = field_list(v)?;
        let ghost before = constraints_view(st.one_of_fields@);
        let ghost fv = strs(fields@);
        st.one_of_fields.push((c, fields));
        assert(constraints_view(st.one_of_fields@) =~= before.push((c, fv)));
        Ok(())
    } else {
        Err(derive_error("unrecognized conf option"))
    }
}

impl StructItem {
    /// The options of a structure named `struct_ident`, read from its attributes (see
    /// `spec_struct_attrs`): the error of the first item that is refused, if any.
    pub fn new(struct_ident: &str, attrs: &Vec<Attr>) -> (r: Result<StructItem, DeriveError>)
        ensures
            match r {
                Ok(item) => spec_struct_attrs(initial_struct(struct_ident@), attrs@, 0) == Ok::<
                    StructView,
                    Messages,
                >(item@),
                Err(e) => spec_struct_attrs(initial_struct(struct_ident@), attrs@, 0) == Err::<
                    StructView,
                    Messages,
                >(messages_view(e)),
            },
    {
        let mut st = StructItem {
            struct_ident: string_of(struct_ident),
            about: None,
            name: None,
            no_help_flag: false,
            env_prefix: None,
            one_of_fields: Vec::new(),
            validation_predicate: None,
            doc_string: None,
        };
        assert(constraints_view(st.one_of_fields@) =~= Seq::<(FieldConstraint, Seq<Seq<char>>)>::empty());
        let ghost start = st@;
        assert(start == initial_struct(struct_ident@));
        let n = attrs.len();
        let mut i: usize = 0;
        while i < n
            invariant
                n == attrs@.len(),
                i <= n,
                start == initial_struct(struct_ident@),
                spec_struct_attrs(start, attrs@, 0) == spec_struct_attrs(st@, attrs@, i as int),
            decreases n - i,
        {
            let a = &attrs[i];
            let ghost before = st@;
            doc_step(&mut st.doc_string, a)?;
            assert(st@ == StructView { doc_string: st@.doc_string, ..before });
            if str_eq(get_attr_name(a), "conf") {
                match a {
                    Attr::List(_, args) => {
                        let m = args.len();
                        if m == 0 {
                            return Err(derive_error("expected nested attribute"));
                        }
                        let ghost st1 = st@;
                        let mut j: usize = 0;
                        while j < m
                            invariant
                                m == args@.len(),
                                j <= m,
                                start == initial_struct(struct_ident@),
                                spec_struct_attrs(start, attrs@, 0) == match spec_struct_args(
                                    st1,
                                    args@,
                                    0,
                                ) {
                                    Err(e) => Err(e),
                                    Ok(x) => spec_struct_attrs(x, attrs@, i + 1),
                                },
                                spec_struct_args(st1, args@, 0) == spec_struct_args(
                                    st@,
                                    args@,
                                    j as int,
                                ),
                            decreases m - j,
                        {
                            struct_arg(&mut st, &args[j])?;
                            j = j + 1;
                        }
                    },
                    _ => {
                        return Err(not_list(a));
                    },
                }
            }
            i = i + 1;
        }
        Ok(st)
    }
}

/// The fields of a structure read from position `i` on: the first error, or every field.
pub open spec fn spec_read_fields(fields: Seq<FieldInput>, struct_has_serde: bool, i: int) -> Result<
    Seq<FieldItemView>,
    Messages,
>
    decreases fields.len() - i,
{
    if i >= fields.len() {
        Ok(Seq::empty())
    } else {
        match spec_read_field(fields[i], struct_has_serde) {
            Err(e) => Err(e),
            Ok(f) => match spec_read_fields(fields, struct_has_serde, i + 1) {
                Err(e) => Err(e),
                Ok(rest) => Ok(seq![f] + rest),
            },
        }
    }
}

/// The content of a list of fields.
pub open spec fn field_items_view(v: Seq<FieldItem>) -> Seq<FieldItemView> {
    v.map_values(|f: FieldItem| f@)
}

/// A structure with `#[derive(Conf)]` read by the derive: its own options first, then its
/// named fields in order; the first error stops it. `struct_has_serde` says whether the
/// structure reads a document.
pub fn read_conf_struct(
    struct_ident: &str,
    attrs: &Vec<Attr>,
    fields: &Vec<FieldInput>,
    struct_has_serde: bool,
) -> (r: Result<(StructItem, Vec<FieldItem>), DeriveError>)
    ensures
        match r {
            Ok((s, f)) => spec_struct_attrs(initial_struct(struct_ident@), attrs@, 0) == Ok::<
                StructView,
                Messages,
            >(s@) && spec_read_fields(fields@, struct_has_serde, 0) == Ok::<
                Seq<FieldItemView>,
                Messages,
            >(field_items_view(f@)),
            Err(e) => match spec_struct_attrs(initial_struct(struct_ident@), attrs@, 0) {
                Err(m) => m == messages_view(e),
                Ok(_) => spec_read_fields(fields@, struct_has_serde, 0) == Err::<
                    Seq<FieldItemView>,
                    Messages,
                >(messages_view(e)),
            },
        },
{
    let struct_item = StructItem::new(struct_ident, attrs)?;
    let n = fields.len();
    let mut items: Vec<FieldItem> = Vec::new();
    let mut i: usize = 0;
    while i < n
        invariant
            n == fields@.len(),
            i <= n,
            spec_struct_attrs(initial_struct(struct_ident@), attrs@, 0) == Ok::<StructView, Messages>(
                struct_item@,
            ),
            forall|k: int|
                0 <= k < i ==> spec_read_field(fields@[k], struct_has_serde) == Ok::<
                    FieldItemView,
                    Messages,
                >(#[trigger] field_items_view(items@)[k]),
            items@.len() == i,
        decreases n - i,
    {
        match FieldItem::new(&fields[i], struct_has_serde) {
            Ok(f) => {
                let ghost before = field_items_view(items@);
                let ghost fv = f@;
                items.push(f);
                assert(field_items_view(items@) =~= before.push(fv));
            },
            Err(e) => {
                proof {
                    assert forall|k: int| 0 <= k < i implies (#[trigger] spec_read_field(
                        fields@[k],
                        struct_has_serde,
                    )) is Ok by {
                        assert(spec_read_field(fields@[k], struct_has_serde) == Ok::<
                            FieldItemView,
                            Messages,
                        >(field_items_view(items@)[k]));
                    }
                    lemma_read_fields_error(fields@, struct_has_serde, i as int, messages_view(e));
                }
                return Err(e);
            },
        }
        i = i + 1;
    }
    proof {
        lemma_read_fields_ok(fields@, struct_has_serde, 0, field_items_view(items@));
        assert(field_items_view(items@).subrange(0, n as int) =~= field_items_view(items@));
    }
    Ok((struct_item, items))
}

proof fn lemma_read_fields_ok(fields: Seq<FieldInput>, has_serde: bool, i: int, v: Seq<FieldItemView>)
    requires
        0 <= i <= fields.len(),
        v.len() == fields.len(),
        forall|k: int| 0 <= k < fields.len() ==> spec_read_field(fields[k], has_serde) == Ok::<FieldItemView, Messages>(#[trigger] v[k]),
    ensures
        spec_read_fields(fields, has_serde, i) == Ok::<Seq<FieldItemView>, Messages>(v.subrange(i, fields.len() as int)),
    decreases fields.len() - i,
{
    if i < fields.len() {
        lemma_read_fields_ok(fields, has_serde, i + 1, v);
        assert(v.subrange(i, fields.len() as int) =~= seq![v[i]] + v.subrange(i + 1, fields.len() as int));
    } else {
        assert(v.subrange(i, fields.len() as int) =~= Seq::<FieldItemView>::empty());
    }
}

proof fn lemma_read_fields_error(fields: Seq<FieldInput>, has_serde: bool, i: int, m: Messages)
    requires
        0 <= i < fields.len(),
        forall|k: int| 0 <= k < i ==> (#[trigger] spec_read_field(fields[k], has_serde)) is Ok,
        spec_read_field(fields[i], has_serde) == Err::<FieldItemView, Messages>(m),
    ensures
        spec_read_fields(fields, has_serde, 0) == Err::<Seq<FieldItemView>, Messages>(m),
{
    lemma_read_fields_error_from(fields, has_serde, 0, i, m);
}

proof fn lemma_read_fields_error_from(fields: Seq<FieldInput>, has_serde: bool, j: int, i: int, m: Messages)
    requires
        0 <= j <= i < fields.len(),
        forall|k: int| 0 <= k < i ==> (#[trigger] spec_read_field(fields[k], has_serde)) is Ok,
        spec_read_field(fields[i], has_serde) == Err::<FieldItemView, Messages>(m),
    ensures
        spec_read_fields(fields, has_serde, j) == Err::<Seq<FieldItemView>, Messages>(m),
    decreases i - j,
{
    if j < i {
        lemma_read_fields_error_from(fields, has_serde, j + 1, i, m);
        assert(spec_read_field(fields[j], has_serde) is Ok);
    }
}

/// What a constraint says of a count of fields that are present.
#[derive(Clone, Copy, Debug, PartialEq, Eq, Structural)]
pub enum ConstraintOutcome {
    /// The constraint holds.
    Satisfied,
    /// Too few of the fields are present.
    TooFew,
    /// Too many of the fields are present.
    TooMany,
}

/// The outcome of a constraint when `count` of its fields are present: none is too few unless
/// at most one is asked, one is always right, and more than one is too many unless at least
/// one is asked.
pub open spec fn spec_constraint_outcome(kind: FieldConstraint, count: nat) -> ConstraintOutcome {
    if count == 0 {
        if kind == FieldConstraint::AtMostOne {
            ConstraintOutcome::Satisfied
        } else {
            ConstraintOutcome::TooFew
        }
    } else if count == 1 {
        ConstraintOutcome::Satisfied
    } else if kind == FieldConstraint::AtLeastOne {
        ConstraintOutcome::Satisfied
    } else {
        ConstraintOutcome::TooMany
    }
}

/// The outcome of a constraint when `count` of its fields are present (see
/// `spec_constraint_outcome`).
pub fn constraint_outcome(kind: FieldConstraint, count: u32) -> (r: ConstraintOutcome)
    ensures
        r == spec_constraint_outcome(kind, count as nat),
{
    if count == 0 {
        if kind == FieldConstraint::AtMostOne {
            ConstraintOutcome::Satisfied
        } else {
            ConstraintOutcome::TooFew
        }
    } else if count == 1 {
        ConstraintOutcome::Satisfied
    } else if kind == FieldConstraint::AtLeastOne {
        ConstraintOutcome::Satisfied
    } else {
        ConstraintOutcome::TooMany
    }
}

/// The first field with this name.
pub open spec fn find_field(items: Seq<FieldItemView>, name: Seq<char>, i: int) -> Option<int>
    decreases items.len() - i,
{
    if i >= items.len() {
        None
    } else if items[i].field_name == name {
        Some(i)
    } else {
        find_field(items, name, i + 1)
    }
}

/// Whether a field's type can say that the field is present: it is a `bool`, an `Option<T>`
/// or a `Vec<T>` (`Option` and `Vec` must have one type argument).
pub open spec fn spec_presence(t: TypeShape) -> Result<bool, Messages> {
    if spec_type_is_bool(t) {
        Ok(true)
    } else {
        match spec_type_is_generic("Option"@, t) {
            Err(e) => Err(e),
            Ok(Some(_)) => Ok(true),
            Ok(None) => match spec_type_is_generic("Vec"@, t) {
                Err(e) => Err(e),
                Ok(o) => Ok(o is Some),
            },
        }
    }
}

/// Whether a kind of field is one program option.
pub open spec fn is_single_option(kind: FieldKind) -> bool {
    kind == FieldKind::Flag || kind == FieldKind::Parameter || kind == FieldKind::Repeat
}

/// The check of one field named in a constraint: it must exist, must not be a parameter with a
/// default value (it would always be present), and its type must say whether it is present.
/// Returns the field's position.
pub open spec fn spec_member(items: Seq<FieldItemView>, types: Seq<TypeShape>, name: Seq<char>) -> Result<int, Messages> {
    match find_field(items, name, 0) {
        None => Err(seq!["identifier not found in struct"@]),
        Some(k) => if items[k].kind == FieldKind::Parameter && items[k].options.default_value is Some {
            Err(seq!["using one_of_fields constraint with a field that has a default_value is invalid, since it will always be present."@])
        } else {
            match spec_presence(types[k]) {
                Err(e) => Err(e),
                Ok(false) => Err(seq!["field must be bool, Option<T>, or Vec<T> to use with one_of_fields constraint"@]),
                Ok(true) => Ok(k),
            }
        },
    }
}

/// The checks of the fields named in a constraint from position `j` on: the first error.
pub open spec fn spec_members(items: Seq<FieldItemView>, types: Seq<TypeShape>, names: Seq<Seq<char>>, j: int) -> Result<(), Messages>
    decreases names.len() - j,
{
    if j >= names.len() {
        Ok(())
    } else {
        match spec_member(items, types, names[j]) {
            Err(e) => Err(e),
            Ok(_) => spec_members(items, types, names, j + 1),
        }
    }
}

/// The kind of the field with this name (which exists).
pub open spec fn kind_of(items: Seq<FieldItemView>, name: Seq<char>) -> FieldKind {
    items[find_field(items, name, 0).unwrap()].kind
}

/// The first `n` names split into those of single options and the others, in order.
pub open spec fn spec_split(items: Seq<FieldItemView>, names: Seq<Seq<char>>, n: int) -> (Seq<Seq<char>>, Seq<Seq<char>>)
    decreases n,
{
    if n <= 0 {
        (Seq::empty(), Seq::empty())
    } else {
        let (s, f) = spec_split(items, names, n - 1);
        if is_single_option(kind_of(items, names[n - 1])) {
            (s.push(names[n - 1]), f)
        } else {
            (s, f.push(names[n - 1]))
        }
    }
}

/// How the generated code checks a constraint: its kind, the ids of its fields that are single
/// options, and the names of the others (flattened structures), each in the constraint's order.
pub struct ConstraintPlan {
    pub kind: FieldConstraint,
    pub single_ids: Vec<String>,
    pub flattened: Vec<String>,
}

/// The plan of a constraint: its fields are checked in order; they are split into single
/// options and flattened fields; unless the constraint allows more than one field, a field that
/// is not a single option must be a flattened structure (one of subcommands cannot say what
/// appeared).
pub open spec fn spec_plan(items: Seq<FieldItemView>, types: Seq<TypeShape>, kind: FieldConstraint, names: Seq<Seq<char>>) -> Result<
    (Seq<Seq<char>>, Seq<Seq<char>>),
    Messages,
> {
    match spec_members(items, types, names, 0) {
        Err(e) => Err(e),
        Ok(_) => {
            let (singles, flattened) = spec_split(items, names, names.len() as int);
            if kind != FieldConstraint::AtLeastOne && exists|j: int|
                0 <= j < flattened.len() && kind_of(items, #[trigger] flattened[j]) != FieldKind::Flatten {
                Err(seq!["field is not flattened, this is an internal error"@])
            } else {
                Ok((singles, flattened))
            }
        },
    }
}

fn find_field_index(items: &Vec<FieldItem>, name: &str) -> (r: Option<usize>)
    ensures
        match r {
            Some(k) => find_field(field_items_view(items@), name@, 0) == Some(k as int) && k < items@.len(),
            None => find_field(field_items_view(items@), name@, 0) is None,
        },
{
    let ghost v = field_items_view(items@);
    let n = items.len();
    let mut i: usize = 0;
    while i < n
        invariant
            n == items@.len(),
            v == field_items_view(items@),
            i <= n,
            find_field(v, name@, 0) == find_field(v, name@, i as int),
        decreases n - i,
    {
        assert(v[i as int] == items@[i as int]@);
        if str_eq(items[i].field_name.as_str(), name) {
            return Some(i);
        }
        i = i + 1;
    }
    None
}

fn presence(t: &TypeShape) -> (r: Result<bool, DeriveError>)
    ensures
        err_view(r) == spec_presence(*t),
{
    if type_is_bool(t) {
        return Ok(true);
    }
    match type_is_generic("Option", t)? {
        Some(_) => Ok(true),
        None => match type_is_generic("Vec", t)? {
            Some(_) => Ok(true),
            None => Ok(false),
        },
    }
}

/// The types of a list of fields.
pub open spec fn field_types(fields: Seq<FieldInput>) -> Seq<TypeShape> {
    fields.map_values(|f: FieldInput| f.ty)
}

fn member(items: &Vec<FieldItem>, fields: &Vec<FieldInput>, name: &str) -> (r: Result<usize, DeriveError>)
    requires
        items@.len() == fields@.len(),
    ensures
        match r {
            Ok(k) => spec_member(field_items_view(items@), field_types(fields@), name@) == Ok::<int, Messages>(k as int)
                && k < items@.len() && find_field(field_items_view(items@), name@, 0) == Some(k as int),
            Err(e) => spec_member(field_items_view(items@), field_types(fields@), name@) == Err::<int, Messages>(messages_view(e)),
        },
{
    match find_field_index(items, name) {
        None => Err(derive_error("identifier not found in struct")),
        Some(k) => {
            assert(field_items_view(items@)[k as int] == items@[k as int]@);
            assert(field_types(fields@)[k as int] == fields@[k as int].ty);
            if items[k].kind == FieldKind::Parameter && items[k].options.default_value.is_some() {
                return Err(derive_error("using one_of_fields constraint with a field that has a default_value is invalid, since it will always be present."));
            }
            if !presence(&fields[k].ty)? {
                return Err(derive_error("field must be bool, Option<T>, or Vec<T> to use with one_of_fields constraint"));
            }
            Ok(k)
        },
    }
}

impl ConstraintPlan {
    /// The plan of a constraint over the named fields (see `spec_plan`).
    pub fn new(items: &Vec<FieldItem>, fields: &Vec<FieldInput>, kind: FieldConstraint, names: &Vec<String>) -> (r: Result<ConstraintPlan, DeriveError>)
        requires
            items@.len() == fields@.len(),
        ensures
            match r {
                Ok(p) => p.kind == kind && spec_plan(field_items_view(items@), field_types(fields@), kind, strs(names@)) == Ok::<
                    (Seq<Seq<char>>, Seq<Seq<char>>),
                    Messages,
                >((strs(p.single_ids@), strs(p.flattened@))),
                Err(e) => spec_plan(field_items_view(items@), field_types(fields@), kind, strs(names@)) == Err::<
                    (Seq<Seq<char>>, Seq<Seq<char>>),
                    Messages,
                >(messages_view(e)),
            },
    {
        let ghost iv = field_items_view(items@);
        let ghost tv = field_types(fields@);
        let ghost nv = strs(names@);
        let n = names.len();
        let mut kinds: Vec<FieldKind> = Vec::new();
        let mut j: usize = 0;
        while j < n
            invariant
                n == names@.len(),
                nv == strs(names@),
                iv == field_items_view(items@),
                tv == field_types(fields@),
                items@.len() == fields@.len(),
                j <= n,
                kinds@.len() == j,
                spec_members(iv, tv, nv, 0) == spec_members(iv, tv, nv, j as int),
                forall|k: int| 0 <= k < j ==> find_field(iv, #[trigger] nv[k], 0) is Some && kinds@[k] == kind_of(iv, nv[k]),
            decreases n - j,
        {
            let k = member(items, fields, names[j].as_str())?;
            assert(iv[k as int] == items@[k as int]@);
            kinds.push(items[k].kind);
            j = j + 1;
        }
        let mut single_ids: Vec<String> = Vec::new();
        let mut flattened: Vec<String> = Vec::new();
        let mut bad = false;
        let mut i: usize = 0;
        while i < n
            invariant
                n == names@.len(),
                nv == strs(names@),
                kinds@.len() == n,
                forall|k: int| 0 <= k < n ==> find_field(iv, #[trigger] nv[k], 0) is Some && kinds@[k] == kind_of(iv, nv[k]),
                i <= n,
                (strs(single_ids@), strs(flattened@)) == spec_split(iv, nv, i as int),
                bad == exists|m: int| 0 <= m < strs(flattened@).len() && kind_of(iv, #[trigger] strs(flattened@)[m]) != FieldKind::Flatten,
            decreases n - i,
        {
            let ghost sb = strs(single_ids@);
            let ghost fb = strs(flattened@);
            let kd = kinds[i];
            if kd == FieldKind::Flag || kd == FieldKind::Parameter || kd == FieldKind::Repeat {
                single_ids.push(names[i].clone());
                assert(strs(single_ids@) =~= sb.push(nv[i as int]));
            } else {
                flattened.push(names[i].clone());
                assert(strs(flattened@) =~= fb.push(nv[i as int]));
                if kd != FieldKind::Flatten {
                    bad = true;
                    assert(kind_of(iv, strs(flattened@)[fb.len() as int]) != FieldKind::Flatten);
                }
                assert(bad == exists|m: int| 0 <= m < strs(flattened@).len() && kind_of(iv, #[trigger] strs(flattened@)[m]) != FieldKind::Flatten) by {
                    if exists|m: int| 0 <= m < strs(flattened@).len() && kind_of(iv, #[trigger] strs(flattened@)[m]) != FieldKind::Flatten {
                        let m = choose|m: int| 0 <= m < strs(flattened@).len() && kind_of(iv, #[trigger] strs(flattened@)[m]) != FieldKind::Flatten;
                        if m < fb.len() {
                            assert(strs(flattened@)[m] == fb[m]);
                        }
                    }
                    if exists|m: int| 0 <= m < fb.len() && kind_of(iv, #[trigger] fb[m]) != FieldKind::Flatten {
                        let m = choose|m: int| 0 <= m < fb.len() && kind_of(iv, #[trigger] fb[m]) != FieldKind::Flatten;
                        assert(strs(flattened@)[m] == fb[m]);
                    }
                }
            }
            i = i + 1;
        }
        if kind != FieldConstraint::AtLeastOne && bad {
            return Err(derive_error("field is not flattened, this is an internal error"));
        }
        Ok(ConstraintPlan { kind, single_ids, flattened })
    }
}

/// The plans of a structure's constraints, in order: the first error, or every plan.
pub open spec fn spec_plans(items: Seq<FieldItemView>, types: Seq<TypeShape>, cs: Seq<(FieldConstraint, Seq<Seq<char>>)>, i: int) -> Result<
    Seq<(FieldConstraint, Seq<Seq<char>>, Seq<Seq<char>>)>,
    Messages,
>
    decreases cs.len() - i,
{
    if i >= cs.len() {
        Ok(Seq::empty())
    } else {
        match spec_plan(items, types, cs[i].0, cs[i].1) {
            Err(e) => Err(e),
            Ok((s, f)) => match spec_plans(items, types, cs, i + 1) {
                Err(e) => Err(e),
                Ok(rest) => Ok(seq![(cs[i].0, s, f)] + rest),
            },
        }
    }
}

/// The content of a list of plans.
pub open spec fn plans_view(v: Seq<ConstraintPlan>) -> Seq<(FieldConstraint, Seq<Seq<char>>, Seq<Seq<char>>)> {
    v.map_values(|p: ConstraintPlan| (p.kind, strs(p.single_ids@), strs(p.flattened@)))
}

proof fn lemma_plans_ok(items: Seq<FieldItemView>, types: Seq<TypeShape>, cs: Seq<(FieldConstraint, Seq<Seq<char>>)>, i: int, v: Seq<(FieldConstraint, Seq<Seq<char>>, Seq<Seq<char>>)>)
    requires
        0 <= i <= cs.len(),
        v.len() == cs.len(),
        forall|k: int| 0 <= k < cs.len() ==> v[k].0 == cs[k].0 && spec_plan(items, types, cs[k].0, cs[k].1) == Ok::<(Seq<Seq<char>>, Seq<Seq<char>>), Messages>(((#[trigger] v[k]).1, v[k].2)),
    ensures
        spec_plans(items, types, cs, i) == Ok::<Seq<(FieldConstraint, Seq<Seq<char>>, Seq<Seq<char>>)>, Messages>(v.subrange(i, cs.len() as int)),
    decreases cs.len() - i,
{
    if i < cs.len() {
        lemma_plans_ok(items, types, cs, i + 1, v);
        assert(v.subrange(i, cs.len() as int) =~= seq![v[i]] + v.subrange(i + 1, cs.len() as int));
    } else {
        assert(v.subrange(i, cs.len() as int) =~= Seq::<(FieldConstraint, Seq<Seq<char>>, Seq<Seq<char>>)>::empty());
    }
}

proof fn lemma_plans_error(items: Seq<FieldItemView>, types: Seq<TypeShape>, cs: Seq<(FieldConstraint, Seq<Seq<char>>)>, j: int, i: int, m: Messages)
    requires
        0 <= j <= i < cs.len(),
        forall|k: int| 0 <= k < i ==> (#[trigger] spec_plan(items, types, cs[k].0, cs[k].1)) is Ok,
        spec_plan(items, types, cs[i].0, cs[i].1) == Err::<(Seq<Seq<char>>, Seq<Seq<char>>), Messages>(m),
    ensures
        spec_plans(items, types, cs, j) == Err::<Seq<(FieldConstraint, Seq<Seq<char>>, Seq<Seq<char>>)>, Messages>(m),
    decreases i - j,
{
    if j < i {
        lemma_plans_error(items, types, cs, j + 1, i, m);
        assert(spec_plan(items, types, cs[j].0, cs[j].1) is Ok);
    }
}

/// The plans of a structure's constraints over its read fields (see `spec_plans`).
pub fn plan_constraints(struct_item: &StructItem, items: &Vec<FieldItem>, fields: &Vec<FieldInput>) -> (r: Result<Vec<ConstraintPlan>, DeriveError>)
    requires
        items@.len() == fields@.len(),
    ensures
        match r {
            Ok(p) => spec_plans(field_items_view(items@), field_types(fields@), struct_item@.one_of_fields, 0) == Ok::<
                Seq<(FieldConstraint, Seq<Seq<char>>, Seq<Seq<char>>)>,
                Messages,
            >(plans_view(p@)),
            Err(e) => spec_plans(field_items_view(items@), field_types(fields@), struct_item@.one_of_fields, 0) == Err::<
                Seq<(FieldConstraint, Seq<Seq<char>>, Seq<Seq<char>>)>,
                Messages,
            >(messages_view(e)),
        },
{
    let ghost iv = field_items_view(items@);
    let ghost tv = field_types(fields@);
    let ghost cs = struct_item@.one_of_fields;
    let n = struct_item.one_of_fields.len();
    let mut plans: Vec<ConstraintPlan> = Vec::new();
    let mut i: usize = 0;
    while i < n
        invariant
            n == struct_item.one_of_fields@.len(),
            cs == struct_item@.one_of_fields,
            iv == field_items_view(items@),
            tv == field_types(fields@),
            items@.len() == fields@.len(),
            i <= n,
            plans@.len() == i,
            forall|k: int| 0 <= k < i ==> (#[trigger] plans_view(plans@)[k]).0 == cs[k].0 && spec_plan(iv, tv, cs[k].0, cs[k].1) == Ok::<(Seq<Seq<char>>, Seq<Seq<char>>), Messages>((plans_view(plans@)[k].1, plans_view(plans@)[k].2)),
        decreases n - i,
    {
        let c = &struct_item.one_of_fields[i];
        assert(cs[i as int] == (c.0, strs(c.1@)));
        match ConstraintPlan::new(items, fields, c.0, &c.1) {
            Ok(p) => {
                let ghost before = plans_view(plans@);
                let ghost pv = (p.kind, strs(p.single_ids@), strs(p.flattened@));
                plans.push(p);
                assert(plans_view(plans@) =~= before.push(pv));
            },
            Err(e) => {
                proof {
                    assert forall|k: int| 0 <= k < i implies (#[trigger] spec_plan(iv, tv, cs[k].0, cs[k].1)) is Ok by {
                        assert(spec_plan(iv, tv, cs[k].0, cs[k].1) == Ok::<(Seq<Seq<char>>, Seq<Seq<char>>), Messages>((plans_view(plans@)[k].1, plans_view(plans@)[k].2)));
                    }
                    lemma_plans_error(iv, tv, cs, 0, i as int, messages_view(e));
                }
                return Err(e);
            },
        }
        i = i + 1;
    }
    proof {
        lemma_plans_ok(iv, tv, cs, 0, plans_view(plans@));
        assert(plans_view(plans@).subrange(0, n as int) =~= plans_view(plans@));
    }
    Ok(plans)
}

} // verus!
