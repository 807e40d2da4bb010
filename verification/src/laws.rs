//! Properties of the library as a whole: the precedence of value sources, how flattening
//! composes, and that secrets are never shown.
use vstd::prelude::*;
use crate::conf_context::{ConfContext, ConfValueSource, view_has_args_source, first_set_env};
use crate::error::InnerErrorView;
use crate::error_order::{error_index, error_le_fn, lemma_error_le_total};
use crate::error_render::spec_title;
use crate::error_report::sorted_errors;
use vstd::relations::sorted_by;
use crate::derive_struct::{ConstraintOutcome, FieldConstraint, spec_constraint_outcome};
use crate::error_render::spec_body;
use crate::parse_env::ParsedEnv;
use crate::duration::{
    DurationScan, ScanMode, close_unit, duration_scan, duration_text_admitted, nanos_cap, scan_start,
    unit_nanos, value_limit,
};
use crate::parser::{ArgAction, MaybeArgView};
use crate::program_option::ParseType;
use crate::initialize::spec_missing_value_plan;
use crate::derive_fields::{
    FieldItemView, FieldKind, OptionsView, kind_keyword, spec_field_arg, spec_make_short,
    spec_program_option, spec_switch_arg,
};
use crate::derive_attrs::Messages;
use crate::derive_attrs::{AttrArg, AttrValue, Lit, all_str, spec_opt_char, spec_opt_str, str_values};
use crate::shell::{Shell, ascii_lower, shell_name, spec_parse_shell, spec_ascii_lowercase};
use crate::naming::is_whitespace;
use crate::naming::{kebab_case, leading_ws, shouty_snake_case, spec_trim, trailing_ws};
use crate::text::lowercase;
use crate::lazybuf::{LazyBuf, Transform, buf_count, buf_items, lemma_buf_items_len};
use crate::initialize::{DocValueView, MissingValuePlanView, spec_invalid_values, spec_resolve_parameter};
use crate::error::DebugInfoView;
use crate::parser::{spec_env_help, spec_help_text, spec_make_arg};
use crate::program_option::{
    ProgramOptionView, env_help_line, env_help_lines, help_env_lines, prefix_all, prefix_opt,
    spec_flatten_prefixes, spec_print,
};

verus! {

/// Whether an option received a value on the command line that it reads.
pub open spec fn cli_gives_value(c: ConfContext, id: Seq<char>) -> bool {
    let cli = c.spec_args().cli_values(c.full_id(id));
    view_has_args_source(c.opt(id)) && cli is Some && cli.unwrap().len() > 0
}

/// Whether an option's env form is set.
pub open spec fn env_form_set(c: ConfContext, id: Seq<char>) -> bool {
    let e = c.opt(id).env_form;
    e is Some && c.spec_env().lookup(e.unwrap()) is Some
}

/// A value given on the command line shadows every environment variable: when an option that
/// can come from the command line received a value there, two contexts that differ only in
/// their environment read the same value, and its source is the command line.
pub proof fn law_command_line_shadows_env(c1: ConfContext, c2: ConfContext, id: Seq<char>)
    requires
        c1.spec_args() == c2.spec_args(),
        c1.spec_id_prefix() == c2.spec_id_prefix(),
        c1.knows(id),
        cli_gives_value(c1, id),
    ensures
        c1.os_value(id) == c2.os_value(id),
        c1.string_value(id) == c2.string_value(id),
        c1.boolean_value(id) == c2.boolean_value(id),
        c1.os_value(id) matches Some((src, _)) && src == ConfValueSource::<Seq<char>>::Args,
{
}

/// Without a command-line value, an option's env form shadows its env aliases and its
/// default: if the env form is set, the value comes from it.
pub proof fn law_env_form_shadows_aliases_and_default(c: ConfContext, id: Seq<char>)
    requires
        c.knows(id),
        !cli_gives_value(c, id),
        env_form_set(c, id),
    ensures
        c.os_value(id) == Some(
            (
                ConfValueSource::Env(c.opt(id).env_form.unwrap()),
                c.spec_env().lookup(c.opt(id).env_form.unwrap()).unwrap(),
            ),
        ),
{
}

/// A default value is used only when neither the command line nor any environment variable
/// of the option gives a value; an option without default then has no value.
pub proof fn law_default_only_when_unset(c: ConfContext, id: Seq<char>)
    requires
        c.knows(id),
    ensures
        (c.os_value(id) matches Some((src, _)) && src is Default) <==> ({
            &&& !cli_gives_value(c, id)
            &&& !env_form_set(c, id)
            &&& first_set_env(c.spec_env(), c.opt(id).env_aliases) is None
            &&& c.opt(id).default_value is Some
        }),
{
}

/// An option "appears" only if it has a value that is not a default value.
pub proof fn law_appearing_is_never_default(c: ConfContext, id: Seq<char>)
    ensures
        !(c.appears(id) matches Ok(Some(src)) && src is Default),
{
}

/// Reading an option in the context of a flattened structure is reading the option with the
/// flattening's prefix in the enclosing context: the same value, source and errors.
pub proof fn law_flattened_context_reads_prefixed_id(
    outer: ConfContext,
    inner: ConfContext,
    sub_prefix: Seq<char>,
    id: Seq<char>,
    delim: Option<char>,
)
    requires
        inner.spec_args() == outer.spec_args(),
        inner.spec_env() == outer.spec_env(),
        inner.spec_id_prefix() == outer.spec_id_prefix() + sub_prefix,
    ensures
        inner.knows(id) == outer.knows(sub_prefix + id),
        inner.opt(id) == outer.opt(sub_prefix + id),
        inner.os_value(id) == outer.os_value(sub_prefix + id),
        inner.string_value(id) == outer.string_value(sub_prefix + id),
        inner.boolean_value(id) == outer.boolean_value(sub_prefix + id),
        inner.repeat_value(id, delim) == outer.repeat_value(sub_prefix + id, delim),
        inner.repeat_os_value(id) == outer.repeat_os_value(sub_prefix + id),
        inner.appears(id) == outer.appears(sub_prefix + id),
{
    assert(inner.full_id(id) =~= outer.full_id(sub_prefix + id));
}

proof fn lemma_prefix_all_twice(a: Seq<char>, b: Seq<char>, v: Seq<Seq<char>>)
    ensures
        prefix_all(a, prefix_all(b, v)) == prefix_all(a + b, v),
{
    assert forall|i: int| 0 <= i < v.len() implies #[trigger] prefix_all(a, prefix_all(b, v))[i]
        == prefix_all(a + b, v)[i] by {
        assert(a + (b + v[i]) =~= (a + b) + v[i]);
    }
    assert(prefix_all(a, prefix_all(b, v)) =~= prefix_all(a + b, v));
}

/// Flattening twice is flattening once with the concatenated prefixes: the outer prefix goes
/// in front of the inner one on the id, the long form and its aliases, and the env form and
/// its aliases; the short form is never prefixed.
pub proof fn law_nested_flattening(
    o: ProgramOptionView,
    inner_id: Seq<char>,
    inner_long: Seq<char>,
    inner_env: Seq<char>,
    inner_desc: Seq<char>,
    outer_id: Seq<char>,
    outer_long: Seq<char>,
    outer_env: Seq<char>,
    outer_desc: Seq<char>,
)
    ensures
        ({
            let twice = spec_flatten_prefixes(
                spec_flatten_prefixes(o, inner_id, inner_long, inner_env, inner_desc),
                outer_id,
                outer_long,
                outer_env,
                outer_desc,
            );
            let once = spec_flatten_prefixes(
                o,
                outer_id + inner_id,
                outer_long + inner_long,
                outer_env + inner_env,
                outer_desc,
            );
            &&& twice.id == once.id
            &&& twice.long_form == once.long_form
            &&& twice.aliases == once.aliases
            &&& twice.env_form == once.env_form
            &&& twice.env_aliases == once.env_aliases
            &&& twice.short_form == o.short_form
        }),
{
    assert(outer_id + (inner_id + o.id) =~= (outer_id + inner_id) + o.id);
    if let Some(l) = o.long_form {
        assert(outer_long + (inner_long + l) =~= (outer_long + inner_long) + l);
    }
    if let Some(e) = o.env_form {
        assert(outer_env + (inner_env + e) =~= (outer_env + inner_env) + e);
    }
    lemma_prefix_all_twice(outer_long, inner_long, o.aliases);
    lemma_prefix_all_twice(outer_env, inner_env, o.env_aliases);
}

proof fn lemma_secret_env_lines(names: Seq<Seq<char>>, env: ParsedEnv)
    ensures
        env_help_lines(names, Some(env), true) == env_help_lines(names, None, true),
    decreases names.len(),
{
    if names.len() > 0 {
        lemma_secret_env_lines(names.drop_last(), env);
    }
}

/// The help text of a secret option never shows the current values of its environment
/// variables: it is the same whatever the environment holds.
pub proof fn law_secret_help_hides_env_values(o: ProgramOptionView, env: ParsedEnv)
    requires
        o.secret == Some(true),
    ensures
        spec_print(o, Some(env)) == spec_print(o, None),
{
    lemma_secret_env_lines(o.env_aliases, env);
    assert(help_env_lines(o, Some(env)) == help_env_lines(o, None));
}

proof fn lemma_secret_arg_env_lines(names: Seq<Seq<char>>, e1: ParsedEnv, e2: ParsedEnv)
    ensures
        spec_env_help(names, e1, true) == spec_env_help(names, e2, true),
    decreases names.len(),
{
    if names.len() > 0 {
        lemma_secret_arg_env_lines(names.drop_last(), e1, e2);
    }
}

/// Nothing the parser makes of a secret option shows the environment: its command-line
/// argument, with its help text, or its lines in the environment section of the help, are
/// the same whatever the environment holds.
pub proof fn law_secret_arg_hides_env_values(
    o: ProgramOptionView,
    e1: ParsedEnv,
    e2: ParsedEnv,
    index: Option<usize>,
)
    requires
        o.secret == Some(true),
    ensures
        spec_help_text(o, e1) == spec_help_text(o, e2),
        spec_make_arg(o, e1, index) == spec_make_arg(o, e2, index),
{
    lemma_secret_arg_env_lines(o.env_aliases, e1, e2);
    assert(spec_help_text(o, e1) == spec_help_text(o, e2));
    law_secret_help_hides_env_values(o, e1);
    law_secret_help_hides_env_values(o, e2);
}

/// An invalid-value error about a secret option never shows the value: its text is the same
/// whatever the value was.
pub proof fn law_secret_error_hides_value(
    src: ConfValueSource<Seq<char>>,
    v1: Seq<char>,
    v2: Seq<char>,
    o: ProgramOptionView,
    err: Seq<char>,
    on: Seq<char>,
    off: Seq<char>,
)
    requires
        o.secret == Some(true),
    ensures
        spec_body(InnerErrorView::InvalidParameterValue(src, v1, o, err), on, off) == spec_body(
            InnerErrorView::InvalidParameterValue(src, v2, o, err),
            on,
            off,
        ),
{
}

/// An error about an environment variable of a secret option that is not UTF-8 never shows
/// the variable's bytes.
pub proof fn law_secret_env_error_hides_bytes(
    name: Seq<char>,
    o: ProgramOptionView,
    b1: Option<Seq<u8>>,
    b2: Option<Seq<u8>>,
    on: Seq<char>,
    off: Seq<char>,
)
    requires
        o.secret == Some(true),
    ensures
        spec_body(InnerErrorView::InvalidUtf8Env(name, o, b1), on, off) == spec_body(
            InnerErrorView::InvalidUtf8Env(name, o, b2),
            on,
            off,
        ),
{
}

/// The report of several errors does not depend on the order in which they were collected:
/// two lists holding the same errors are sorted alike.
pub proof fn law_report_order_independent(a: Seq<InnerErrorView>, b: Seq<InnerErrorView>)
    requires
        a.to_multiset() == b.to_multiset(),
    ensures
        sorted_errors(a) == sorted_errors(b),
{
    lemma_error_le_total();
    a.lemma_sort_by_ensures(error_le_fn());
    b.lemma_sort_by_ensures(error_le_fn());
    vstd::seq_lib::lemma_sorted_unique(sorted_errors(a), sorted_errors(b), error_le_fn());
}

/// In a report of several errors, the errors of one kind are reported together: between two
/// errors with the same title, every error has that title too, so each title is shown once.
pub proof fn law_kinds_reported_together(errs: Seq<InnerErrorView>, i: int, j: int, k: int)
    requires
        0 <= i < j < k < errs.len(),
        spec_title(sorted_errors(errs)[i]) == spec_title(sorted_errors(errs)[k]),
    ensures
        spec_title(sorted_errors(errs)[j]) == spec_title(sorted_errors(errs)[i]),
{
    lemma_error_le_total();
    errs.lemma_sort_by_ensures(error_le_fn());
    broadcast use vstd::seq_lib::group_to_multiset_ensures;
    let s = sorted_errors(errs);
    assert(errs.len() == errs.to_multiset().len());
    assert(s.len() == s.to_multiset().len());
    assert(error_le_fn()(s[i], s[j]));
    assert(error_le_fn()(s[j], s[k]));
    lemma_titles_distinct(s[i], s[k]);
    lemma_titles_distinct(s[j], s[i]);
}

/// Errors of different kinds have different titles.
proof fn lemma_titles_distinct(a: InnerErrorView, b: InnerErrorView)
    ensures
        spec_title(a) == spec_title(b) <==> error_index(a) == error_index(b),
{
    reveal_strlit("An env var contained invalid UTF8");
    reveal_strlit("A required value was not provided");
    reveal_strlit("Too few arguments");
    reveal_strlit("Too many arguments");
    reveal_strlit("Validation failed");
    reveal_strlit("Invalid value");
    if spec_title(a) == spec_title(b) && error_index(a) != error_index(b) {
        assert(spec_title(a)[0] == spec_title(b)[0]);
        assert(spec_title(a)[2] == spec_title(b)[2]);
        assert(spec_title(a).len() == spec_title(b).len());
    }
}

/// A field constraint holds exactly when the number of its fields that are present is what its
/// name says: exactly one for `one_of_fields`, at most one for `at_most_one_of_fields`, at least
/// one for `at_least_one_of_fields`. Otherwise none present is reported as too few arguments,
/// and more than one as too many.
pub proof fn law_constraint_counts(kind: FieldConstraint, count: nat)
    ensures
        (spec_constraint_outcome(kind, count) == ConstraintOutcome::Satisfied) <==> match kind {
            FieldConstraint::ExactlyOne => count == 1,
            FieldConstraint::AtMostOne => count <= 1,
            FieldConstraint::AtLeastOne => count >= 1,
        },
        (spec_constraint_outcome(kind, count) == ConstraintOutcome::TooFew) <==> (count == 0 && kind
            != FieldConstraint::AtMostOne),
        (spec_constraint_outcome(kind, count) == ConstraintOutcome::TooMany) <==> (count > 1 && kind
            != FieldConstraint::AtLeastOne),
{
}

/// Every collected error is reported: the errors in a report of several are the collected
/// ones, none lost and none repeated.
pub proof fn law_report_keeps_every_error(errs: Seq<InnerErrorView>)
    ensures
        sorted_errors(errs).to_multiset() == errs.to_multiset(),
        sorted_errors(errs).len() == errs.len(),
{
    lemma_error_le_total();
    errs.lemma_sort_by_ensures(error_le_fn());
    broadcast use vstd::seq_lib::group_to_multiset_ensures;
    assert(errs.len() == errs.to_multiset().len());
    assert(sorted_errors(errs).len() == sorted_errors(errs).to_multiset().len());
}


/// Every value of a repeat parameter that does not parse is reported, with its own text and
/// the parser's message: parsing goes on past the first failure.
pub proof fn law_every_invalid_value_reported<T>(
    src: ConfValueSource<Seq<char>>,
    texts: Seq<Seq<char>>,
    parsed: Seq<Result<T, String>>,
    opt: ProgramOptionView,
    i: int,
)
    requires
        texts.len() == parsed.len(),
        0 <= i < parsed.len(),
        parsed[i] is Err,
    ensures
        spec_invalid_values(src, texts, parsed, opt).contains(
            InnerErrorView::InvalidParameterValue(src, texts[i], opt, parsed[i]->Err_0@),
        ),
    decreases parsed.len(),
{
    let n = parsed.len() - 1;
    let rest = spec_invalid_values(src, texts.take(n as int), parsed.drop_last(), opt);
    let e = InnerErrorView::InvalidParameterValue(src, texts[i], opt, parsed[i]->Err_0@);
    if i == n {
        assert(spec_invalid_values(src, texts, parsed, opt) == rest.push(e));
        assert(rest.push(e)[rest.len() as int] == e);
    } else {
        law_every_invalid_value_reported(src, texts.take(n as int), parsed.drop_last(), opt, i);
        let k = choose|k: int| 0 <= k < rest.len() && rest[k] == e;
        match parsed.last() {
            Ok(_) => {},
            Err(m) => {
                let full = rest.push(
                    InnerErrorView::InvalidParameterValue(src, texts[n as int], opt, m@),
                );
                assert(full[k] == e);
            },
        }
    }
}


/// A parameter's value found on the command line or in the environment shadows the
/// document: the outcome is the same whatever the document gives.
pub proof fn law_found_value_shadows_document<T>(
    found: (ConfValueSource<Seq<char>>, Seq<char>),
    doc1: Option<(Seq<char>, DocValueView<T>)>,
    doc2: Option<(Seq<char>, DocValueView<T>)>,
    parsed: Option<Result<T, Seq<char>>>,
    default_expr: Option<T>,
    plan: MissingValuePlanView,
    opt: ProgramOptionView,
    debug_info: Option<DebugInfoView>,
)
    ensures
        spec_resolve_parameter(Some(found), doc1, parsed, default_expr, plan, opt, debug_info)
            == spec_resolve_parameter(Some(found), doc2, parsed, default_expr, plan, opt, debug_info),
{
}

/// Without a value from the command line or the environment, the document shadows every
/// default: the parameter takes the document's value, or its text as the value parser reads
/// it (an invalid-value error from the document if it does not parse), with the document as
/// its source.
pub proof fn law_document_shadows_defaults<T>(
    name: Seq<char>,
    d: DocValueView<T>,
    parsed: Option<Result<T, Seq<char>>>,
    default_expr: Option<T>,
    plan: MissingValuePlanView,
    opt: ProgramOptionView,
    debug_info: Option<DebugInfoView>,
)
    requires
        d is Text ==> parsed is Some,
    ensures
        spec_resolve_parameter(None, Some((name, d)), parsed, default_expr, plan, opt, debug_info)
            == match d {
            DocValueView::Value(v) => Ok::<Option<(ConfValueSource<Seq<char>>, T)>, InnerErrorView>(
                Some((ConfValueSource::Document(name), v)),
            ),
            DocValueView::Text(t) => match parsed.unwrap() {
                Ok(v) => Ok(Some((ConfValueSource::Document(name), v))),
                Err(m) => Err(
                    InnerErrorView::InvalidParameterValue(ConfValueSource::Document(name), t, opt, m),
                ),
            },
        },
{
}


/// Reading a tree of buffers yields one item per leaf, for every tree, whatever its size:
/// the count of a buffer (`LazyBuf::count`, where it fits a `usize`) is the number of items
/// that `LazyBuf::iter` yields.
pub proof fn law_count_is_number_of_items<T: View, X: Transform<T>>(lb: LazyBuf<T, X>)
    ensures
        buf_items(lb).len() == buf_count(lb),
{
    lemma_buf_items_len(lb);
}


/// The command-line argument made for an option carries the option's own identity and
/// switches: a positional option becomes an argument at its index, with no switch; any other
/// option with a short or long form becomes a switch argument whose short form, long form
/// and aliases are the option's, and whose action follows its parse type (a flag is set
/// true, a parameter stores its value, a repeat parameter appends each value).
pub proof fn law_argument_carries_option_switches(
    o: ProgramOptionView,
    env: ParsedEnv,
    index: Option<usize>,
)
    requires
        o.is_positional ==> index is Some,
        !o.is_positional ==> o.short_form is Some || o.long_form is Some,
    ensures
        spec_make_arg(o, env, index) matches MaybeArgView::Arg(a) && a.id == o.id && if o.is_positional {
            a.index == index && a.short is None && a.long is None
        } else {
            &&& a.short == o.short_form
            &&& a.long == o.long_form
            &&& a.aliases == o.aliases
            &&& a.index is None
            &&& a.action == match o.parse_type {
                ParseType::Flag => ArgAction::SetTrue,
                ParseType::Parameter => ArgAction::SetValue,
                ParseType::Repeat => ArgAction::Append,
            }
        },
{
}

/// A parameter field that reads nothing uses, in this order: its default expression, its
/// default value text (also when its type is an `Option`), `None` if its type is an
/// `Option`, else the missing-value error. Other fields have no such plan.
pub proof fn law_missing_value_uses_defaults_first(f: FieldItemView)
    ensures
        f.kind != FieldKind::Parameter ==> spec_missing_value_plan(f) is None,
        f.kind == FieldKind::Parameter && f.options.default_value_expr is Some
            ==> spec_missing_value_plan(f) == Some(MissingValuePlanView::UseDefaultExpr),
        f.kind == FieldKind::Parameter && f.options.default_value_expr is None
            && f.options.default_value is Some ==> spec_missing_value_plan(f) == Some(
            MissingValuePlanView::ParseDefault(f.options.default_value.unwrap()),
        ),
        f.kind == FieldKind::Parameter && f.options.default_value_expr is None
            && f.options.default_value is None ==> spec_missing_value_plan(f) == Some(
            if f.is_optional_type {
                MissingValuePlanView::NoValue
            } else {
                MissingValuePlanView::Missing
            },
        ),
{
}

/// The program option of a flag, parameter or repeat field keeps what the field declares:
/// its name as id, its description, its short and long forms and aliases, and its
/// environment variable and env aliases (none listed means none).
pub proof fn law_program_option_keeps_declared_names(f: FieldItemView)
    requires
        f.kind == FieldKind::Flag || f.kind == FieldKind::Parameter || f.kind == FieldKind::Repeat,
    ensures
        spec_program_option(f) matches Some(o) && {
            &&& o.id == f.field_name
            &&& o.description == f.options.doc_string
            &&& o.short_form == f.options.short_switch
            &&& o.long_form == f.options.long_switch
            &&& o.aliases == match f.options.aliases {
                Some(a) => a,
                None => Seq::<Seq<char>>::empty(),
            }
            &&& o.env_form == f.options.env_name
            &&& o.env_aliases == match f.options.env_aliases {
                Some(a) => a,
                None => Seq::<Seq<char>>::empty(),
            }
        },
{
}

/// The strings of a list of string literals are kept, in order: `key = ["a", "b"]` reads as
/// the list `a`, `b`.
pub open spec fn lists_strings(listed: Seq<Seq<char>>, items: Seq<Lit>) -> bool {
    &&& listed.len() == items.len()
    &&& forall|i: int| 0 <= i < items.len() ==> listed[i] == (#[trigger] items[i])->Str_0@
}

/// An `env_aliases = [...]` or `aliases = [...]` argument of a field sets exactly the listed
/// names, in order, and changes nothing else (where the field has not set them before).
pub proof fn law_listed_aliases_are_kept(name: Seq<char>, st: OptionsView, arg: AttrArg, items: Seq<Lit>)
    requires
        arg.key@ == "env_aliases"@ || arg.key@ == "aliases"@,
        arg.value is Array,
        arg.value->Array_0@ == items,
        items.len() > 0,
        forall|i: int| 0 <= i < items.len() ==> (#[trigger] items[i]) is Str,
        arg.key@ == "env_aliases"@ ==> st.env_aliases is None,
        arg.key@ == "aliases"@ ==> st.aliases is None,
    ensures
        spec_switch_arg(name, st, arg) matches Some(Ok(after)) && if arg.key@ == "env_aliases"@ {
            &&& after.env_aliases matches Some(listed) && lists_strings(listed, items)
            &&& after == (OptionsView { env_aliases: after.env_aliases, ..st })
        } else {
            &&& after.aliases matches Some(listed) && lists_strings(listed, items)
            &&& after == (OptionsView { aliases: after.aliases, ..st })
        },
{
    reveal_strlit("env_aliases");
    reveal_strlit("aliases");
    reveal_strlit("short");
    reveal_strlit("long");
    reveal_strlit("env");
    assert("env_aliases"@.len() == 11 && "aliases"@.len() == 7 && "short"@.len() == 5
        && "long"@.len() == 4 && "env"@.len() == 3);
    assert(all_str(items));
    let listed = str_values(items);
    assert forall|i: int| 0 <= i < items.len() implies listed[i] == (#[trigger] items[i])->Str_0@ by {
        assert(items[i] is Str);
    }
}

/// Parsing the name of a shell gives that shell back.
pub proof fn law_shell_name_parses_back(sh: Shell)
    ensures
        spec_parse_shell(shell_name(sh)) == Some(sh),
{
    reveal_strlit("bash");
    reveal_strlit("elvish");
    reveal_strlit("fish");
    reveal_strlit("powershell");
    reveal_strlit("zsh");
    let n = shell_name(sh);
    assert(leading_ws(n) == 0);
    assert(trailing_ws(n.skip(0)) == 0);
    assert(spec_trim(n) =~= n);
    assert(spec_ascii_lowercase(n) =~= n);
}

/// A text names a shell exactly when, trimmed and in ASCII lowercase, it is that shell's
/// name; names of different shells differ, so each text names at most one shell.
pub proof fn law_shell_parse_is_by_name(text: Seq<char>, sh: Shell)
    ensures
        spec_parse_shell(text) == Some(sh) <==> spec_ascii_lowercase(spec_trim(text)) == shell_name(sh),
{
    reveal_strlit("bash");
    reveal_strlit("elvish");
    reveal_strlit("fish");
    reveal_strlit("powershell");
    reveal_strlit("zsh");
    assert("bash"@.len() == 4 && "elvish"@.len() == 6 && "fish"@.len() == 4
        && "powershell"@.len() == 10 && "zsh"@.len() == 3);
    assert("bash"@[0] == 'b' && "fish"@[0] == 'f');
    assert("bash"@ != "fish"@);
}


/// Whether every character of a text is a decimal digit.
pub open spec fn all_digits(ds: Seq<char>) -> bool {
    forall|i: int| 0 <= i < ds.len() ==> '0' <= #[trigger] ds[i] && ds[i] <= '9'
}

/// The units that `go-parse-duration` knows, written in ASCII.
pub open spec fn ascii_duration_unit(u: Seq<char>) -> bool {
    ||| u == seq!['n', 's']
    ||| u == seq!['u', 's']
    ||| u == seq!['m', 's']
    ||| u == seq!['s']
    ||| u == seq!['m']
    ||| u == seq!['h']
}

/// `short`, `long` and `env` arguments set the field's switch or variable: to the value
/// written (`short = 'c'`, `long = "name"`, `env = "NAME"`), else to the default made from
/// the field's name (its first letter in lowercase; its name in kebab case; its name in
/// shouty snake case); nothing else changes.
pub proof fn law_switch_values_are_kept(name: Seq<char>, st: OptionsView, arg: AttrArg)
    requires
        name.len() > 0,
        arg.key@ == "short"@ ==> st.short_switch is None && (arg.value is Absent || arg.value
            matches AttrValue::Lit(Lit::Char(_))),
        arg.key@ == "long"@ ==> st.long_switch is None && (arg.value is Absent || arg.value
            matches AttrValue::Lit(Lit::Str(_))),
        arg.key@ == "env"@ ==> st.env_name is None && (arg.value is Absent || arg.value
            matches AttrValue::Lit(Lit::Str(_))),
        arg.key@ == "short"@ || arg.key@ == "long"@ || arg.key@ == "env"@,
    ensures
        spec_switch_arg(name, st, arg) matches Some(Ok(after)) && if arg.key@ == "short"@ {
            after == (OptionsView {
                short_switch: Some(
                    match arg.value {
                        AttrValue::Lit(Lit::Char(c)) => c,
                        _ => lowercase(name)[0],
                    },
                ),
                ..st
            })
        } else if arg.key@ == "long"@ {
            after == (OptionsView {
                long_switch: Some(
                    match arg.value {
                        AttrValue::Lit(Lit::Str(v)) => v@,
                        _ => kebab_case(name),
                    },
                ),
                ..st
            })
        } else {
            after == (OptionsView {
                env_name: Some(
                    match arg.value {
                        AttrValue::Lit(Lit::Str(v)) => v@,
                        _ => shouty_snake_case(name),
                    },
                ),
                ..st
            })
        },
{
    reveal_strlit("short");
    reveal_strlit("long");
    reveal_strlit("env");
    reveal_strlit("aliases");
    assert("short"@.len() == 5 && "long"@.len() == 4 && "env"@.len() == 3 && "aliases"@.len() == 7);
    if arg.key@ == "short"@ {
        assert(spec_opt_char(arg.value) is Ok);
        assert(spec_switch_arg(name, st, arg) is Some);
        let c = match arg.value {
            AttrValue::Lit(Lit::Char(c)) => c,
            _ => lowercase(name)[0],
        };
        if arg.value is Absent {
            assert(spec_opt_char(arg.value) == Ok::<Option<char>, Messages>(None));
            assert(spec_make_short(name) == Some(c));
        } else {
            assert(spec_opt_char(arg.value) == Ok::<Option<char>, Messages>(Some(c)));
        }
        assert(spec_switch_arg(name, st, arg) == Some(Ok::<OptionsView, Messages>(OptionsView { short_switch: Some(c), ..st })));
    } else if arg.key@ == "long"@ {
        let v = match arg.value {
            AttrValue::Lit(Lit::Str(v)) => v@,
            _ => kebab_case(name),
        };
        if arg.value is Absent {
            assert(spec_opt_str(arg.value) == Ok::<Option<Seq<char>>, Messages>(None));
        } else {
            assert(spec_opt_str(arg.value) == Ok::<Option<Seq<char>>, Messages>(Some(v)));
        }
        assert(spec_switch_arg(name, st, arg) == Some(Ok::<OptionsView, Messages>(OptionsView { long_switch: Some(v), ..st })));
    } else {
        let v = match arg.value {
            AttrValue::Lit(Lit::Str(v)) => v@,
            _ => shouty_snake_case(name),
        };
        if arg.value is Absent {
            assert(spec_opt_str(arg.value) == Ok::<Option<Seq<char>>, Messages>(None));
        } else {
            assert(spec_opt_str(arg.value) == Ok::<Option<Seq<char>>, Messages>(Some(v)));
        }
        assert(spec_switch_arg(name, st, arg) == Some(Ok::<OptionsView, Messages>(OptionsView { env_name: Some(v), ..st })));
    }
}

/// The powers of ten.
pub open spec fn power_of_ten(j: nat) -> int
    decreases j,
{
    if j == 0 {
        1
    } else {
        10 * power_of_ten((j - 1) as nat)
    }
}

proof fn lemma_power_of_ten_positive(j: nat)
    ensures
        1 <= power_of_ten(j),
    decreases j,
{
    if j > 0 {
        lemma_power_of_ten_positive((j - 1) as nat);
    }
}

proof fn lemma_power_of_ten_mono(j: nat, k: nat)
    requires
        j <= k,
    ensures
        1 <= power_of_ten(j) <= power_of_ten(k),
    decreases k,
{
    lemma_power_of_ten_positive(j);
    if j < k {
        lemma_power_of_ten_mono(j, (k - 1) as nat);
    }
}

/// A duration text of one number and a unit: an optional sign, decimal digits, optionally a
/// dot and fraction digits, and a unit.
pub open spec fn one_number_text(sign: Seq<char>, ds: Seq<char>, has_frac: bool, fs: Seq<char>, u: Seq<char>) -> Seq<char> {
    sign + ds + (if has_frac {
        seq!['.']
    } else {
        Seq::empty()
    }) + fs + u
}

/// The reading state in the middle of a number: refused by the parser already, or in the
/// number with a running total of zero and its integer part within bounds.
pub open spec fn number_in_progress(st: DurationScan) -> bool {
    ||| st.mode == ScanMode::Refused
    ||| st.mode == ScanMode::Number && st.total == 0 && 0 <= st.int_part <= nanos_cap()
}

#[verifier::spinoff_prover]
#[verifier::rlimit(60)]
proof fn lemma_one_number_scan(
    sign: Seq<char>,
    ds: Seq<char>,
    has_frac: bool,
    fs: Seq<char>,
    u: Seq<char>,
    k: int,
)
    requires
        sign == Seq::<char>::empty() || sign == seq!['+'] || sign == seq!['-'],
        all_digits(ds),
        all_digits(fs),
        !has_frac ==> fs.len() == 0,
        fs.len() <= 18,
        ds.len() + fs.len() > 0,
        ascii_duration_unit(u),
        0 <= k <= one_number_text(sign, ds, has_frac, fs, u).len(),
    ensures
        ({
            let t = one_number_text(sign, ds, has_frac, fs, u);
            let st = duration_scan(t, k);
            let a = sign.len() as int;
            let b = a + ds.len();
            let c = b + if has_frac {
                1int
            } else {
                0int
            };
            let d = c + fs.len();
            &&& k <= a ==> st.mode != ScanMode::Stuck && st.mode != ScanMode::Unit
                && st.mode != ScanMode::Number && st.total == 0
            &&& a < k <= b ==> number_in_progress(st) && (st.mode == ScanMode::Number ==> !st.dotted
                && st.digits && st.frac_part == 0)
            &&& b < k <= c ==> number_in_progress(st) && (st.mode == ScanMode::Number ==> st.dotted
                && st.frac_part == 0 && st.digits == (ds.len() > 0))
            &&& c < k <= d ==> number_in_progress(st) && (st.mode == ScanMode::Number ==> st.dotted
                && st.digits && 0 <= st.frac_part < power_of_ten((k - c) as nat))
            &&& d < k ==> st.mode == ScanMode::Refused || (st.mode == ScanMode::Unit
                && st.unit_start == d && st.unit_ascii && st.total == 0 && 0 <= st.int_part
                <= nanos_cap())
        }),
    decreases k,
{
    let t = one_number_text(sign, ds, has_frac, fs, u);
    let a = sign.len() as int;
    let b = a + ds.len();
    let dot: Seq<char> = if has_frac {
        seq!['.']
    } else {
        Seq::empty()
    };
    let c = b + dot.len();
    let d = c + fs.len();
    assert(t =~= sign + ds + dot + fs + u);
    if k > 0 {
        lemma_one_number_scan(sign, ds, has_frac, fs, u, k - 1);
        let i = k - 1;
        if i < a {
            assert(t[i] == sign[i]);
        } else if i < b {
            assert(t[i] == ds[i - a]);
        } else if i < c {
            assert(t[i] == '.');
        } else if i < d {
            assert(t[i] == fs[i - c]);
            let st0 = duration_scan(t, i);
            if st0.mode == ScanMode::Number {
                lemma_power_of_ten_mono((i - c) as nat, 17);
                assert(power_of_ten(17) == 100_000_000_000_000_000) by {
                    reveal_with_fuel(power_of_ten, 18);
                }
            }
        } else {
            assert(t[i] == u[i - d]);
            assert(seq!['n', 's'][0] == 'n' && seq!['u', 's'][0] == 'u' && seq!['m', 's'][0] == 'm');
            assert(seq!['n', 's'][1] == 's' && seq!['u', 's'][1] == 's' && seq!['m', 's'][1] == 's');
            assert(seq!['s'][0] == 's' && seq!['m'][0] == 'm' && seq!['h'][0] == 'h');
        }
    }
}

/// A duration text of one number with a known unit is handed to `go-parse-duration`: an
/// optional sign, decimal digits, optionally a dot and at most 18 fraction digits (at least
/// one digit in all), then ns, us, ms, s, m or h. Reading it never finds a place where the
/// parser would panic or not return, so the parser's own answer is given (a number too large
/// for its unit is refused by the parser itself, with its own message).
pub proof fn law_one_number_with_unit_is_handed_to_parser(
    sign: Seq<char>,
    ds: Seq<char>,
    has_frac: bool,
    fs: Seq<char>,
    u: Seq<char>,
)
    requires
        sign == Seq::<char>::empty() || sign == seq!['+'] || sign == seq!['-'],
        all_digits(ds),
        all_digits(fs),
        !has_frac ==> fs.len() == 0,
        fs.len() <= 18,
        ds.len() + fs.len() > 0,
        ascii_duration_unit(u),
    ensures
        duration_text_admitted(one_number_text(sign, ds, has_frac, fs, u)),
{
    let t = one_number_text(sign, ds, has_frac, fs, u);
    lemma_one_number_scan(sign, ds, has_frac, fs, u, t.len() as int);
    let st = duration_scan(t, t.len() as int);
    if st.mode == ScanMode::Unit {
        let run = t.subrange(st.unit_start, t.len() as int);
        assert(run =~= u);
        assert(seq!['n', 's'].len() == 2 && seq!['u', 's'].len() == 2 && seq!['m', 's'].len() == 2);
        assert(seq!['s'].len() == 1 && seq!['m'].len() == 1 && seq!['h'].len() == 1);
        assert(seq!['s'][0] == 's' && seq!['m'][0] == 'm' && seq!['h'][0] == 'h');
        assert(seq!['n', 's'][0] == 'n' && seq!['u', 's'][0] == 'u' && seq!['m', 's'][0] == 'm');
        let w = unit_nanos(u);
        assert(1 <= w <= 3_600_000_000_000);
        if st.int_part <= value_limit() / w {
            assert(st.int_part * w <= value_limit()) by (nonlinear_arith)
                requires
                    st.int_part <= value_limit() / w,
                    w >= 1,
                    st.int_part >= 0,
            ;
        }
    }
}


/// The reading state in the digits of a number that started at `start` with the running
/// total `total` before it: refused, or in the number with its integer part below the power
/// of ten of the digits read.
pub open spec fn in_token_digits(st: DurationScan, total: int, digits_read: nat) -> bool {
    ||| st.mode == ScanMode::Refused
    ||| st.mode == ScanMode::Number && !st.dotted && st.digits && st.frac_part == 0
        && !st.frac_nonzero && st.total == total && 0 <= st.int_part < power_of_ten(digits_read)
}

proof fn lemma_token_digits(t: Seq<char>, start: int, ds: Seq<char>, total: int, k: int)
    requires
        all_digits(ds),
        0 <= start,
        start + ds.len() <= t.len(),
        t.subrange(start, start + ds.len()) == ds,
        in_token_digits(duration_scan(t, start + 1), total, 1),
        start + 1 <= k <= start + ds.len(),
    ensures
        in_token_digits(duration_scan(t, k), total, (k - start) as nat),
    decreases k,
{
    if k > start + 1 {
        lemma_token_digits(t, start, ds, total, k - 1);
        assert(t[k - 1] == ds[k - 1 - start]);
        lemma_power_of_ten_positive((k - 1 - start) as nat);
    }
}

proof fn lemma_token_unit(t: Seq<char>, start: int, ds: Seq<char>, u: Seq<char>, total: int, j: int)
    requires
        all_digits(ds),
        ds.len() > 0,
        ascii_duration_unit(u),
        0 <= start,
        start + ds.len() + u.len() <= t.len(),
        t.subrange(start, start + ds.len()) == ds,
        t.subrange(start + ds.len(), start + ds.len() + u.len()) == u,
        in_token_digits(duration_scan(t, start + 1), total, 1),
        1 <= j <= u.len(),
    ensures
        ({
            let st = duration_scan(t, start + ds.len() + j);
            ||| st.mode == ScanMode::Refused
            ||| st.mode == ScanMode::Unit && st.unit_start == start + ds.len() && st.unit_ascii
                && !st.frac_nonzero && st.total == total && 0 <= st.int_part < power_of_ten(
                ds.len(),
            )
        }),
    decreases j,
{
    let e = start + ds.len();
    assert(t[e + j - 1] == u[j - 1]) by {
        assert(t.subrange(e, e + u.len())[j - 1] == t[e + j - 1]);
    }
    assert(seq!['n', 's'][0] == 'n' && seq!['u', 's'][0] == 'u' && seq!['m', 's'][0] == 'm');
    assert(seq!['n', 's'][1] == 's' && seq!['u', 's'][1] == 's' && seq!['m', 's'][1] == 's');
    assert(seq!['s'][0] == 's' && seq!['m'][0] == 'm' && seq!['h'][0] == 'h');
    if j == 1 {
        lemma_token_digits(t, start, ds, total, e);
    } else {
        lemma_token_unit(t, start, ds, u, total, j - 1);
    }
}

proof fn lemma_close_token(t: Seq<char>, st: DurationScan, end: int, at_end: bool, u: Seq<char>, n: nat)
    requires
        ascii_duration_unit(u),
        0 <= st.unit_start <= end <= t.len(),
        t.subrange(st.unit_start, end) == u,
        st.mode == ScanMode::Unit,
        st.unit_ascii,
        !st.frac_nonzero,
        0 <= st.int_part < power_of_ten(n),
        n <= 6,
        0 <= st.total <= 3_600_000_000_000_000_000,
    ensures
        ({
            let r = close_unit(t, st, end, at_end);
            ||| r.mode == ScanMode::Refused
            ||| r.mode == ScanMode::Unit && r.total == st.total + st.int_part * unit_nanos(u)
                && r.total <= st.total + 3_600_000_000_000_000_000 && r == (DurationScan {
                total: r.total,
                ..st
            })
        }),
{
    assert(seq!['n', 's'].len() == 2 && seq!['u', 's'].len() == 2 && seq!['m', 's'].len() == 2);
    assert(seq!['s'].len() == 1 && seq!['m'].len() == 1 && seq!['h'].len() == 1);
    assert(seq!['s'][0] == 's' && seq!['m'][0] == 'm' && seq!['h'][0] == 'h');
    assert(seq!['n', 's'][0] == 'n' && seq!['u', 's'][0] == 'u' && seq!['m', 's'][0] == 'm');
    let w = unit_nanos(u);
    assert(1 <= w <= 3_600_000_000_000);
    lemma_power_of_ten_mono(n, 6);
    assert(power_of_ten(6) == 1_000_000) by {
        reveal_with_fuel(power_of_ten, 7);
    }
    assert(st.int_part * w <= 1_000_000 * 3_600_000_000_000) by (nonlinear_arith)
        requires
            0 <= st.int_part < 1_000_000,
            1 <= w <= 3_600_000_000_000,
    ;
}

proof fn lemma_token_first_digit(t: Seq<char>)
    requires
        t.len() > 0,
        '0' <= t[0] <= '9',
    ensures
        in_token_digits(duration_scan(t, 1), 0, 1),
{
    assert(duration_scan(t, 0) == scan_start());
    assert(power_of_ten(1) == 10) by {
        reveal_with_fuel(power_of_ten, 2);
    }
}

proof fn lemma_token_next(t: Seq<char>, start: int, ds: Seq<char>, u: Seq<char>, total: int) -> (next_total: int)
    requires
        all_digits(ds),
        1 <= ds.len() <= 6,
        ascii_duration_unit(u),
        0 <= start,
        start + ds.len() + u.len() < t.len(),
        t.subrange(start, start + ds.len()) == ds,
        t.subrange(start + ds.len(), start + ds.len() + u.len()) == u,
        '0' <= t[start + ds.len() + u.len()] <= '9',
        in_token_digits(duration_scan(t, start + 1), total, 1),
        0 <= total <= 3_600_000_000_000_000_000,
    ensures
        in_token_digits(duration_scan(t, start + ds.len() + u.len() + 1), next_total, 1),
        0 <= next_total <= total + 3_600_000_000_000_000_000,
{
    let e = start + ds.len() + u.len();
    lemma_token_unit(t, start, ds, u, total, u.len() as int);
    let st = duration_scan(t, e);
    assert(power_of_ten(1) == 10) by {
        reveal_with_fuel(power_of_ten, 2);
    }
    if st.mode == ScanMode::Unit {
        assert(t.subrange(st.unit_start, e) == u);
        lemma_close_token(t, st, e, false, u, ds.len());
        let c = close_unit(t, st, e, false);
        if c.mode == ScanMode::Unit {
            c.total
        } else {
            0
        }
    } else {
        0
    }
}

/// A duration text of two numbers of at most six digits, each with a known unit (as in
/// "4h15m") is handed to `go-parse-duration`: reading it never finds a place where the
/// parser would panic or not return.
pub proof fn law_two_numbers_with_units_are_handed_to_parser(
    ds1: Seq<char>,
    u1: Seq<char>,
    ds2: Seq<char>,
    u2: Seq<char>,
)
    requires
        all_digits(ds1),
        all_digits(ds2),
        1 <= ds1.len() <= 6,
        1 <= ds2.len() <= 6,
        ascii_duration_unit(u1),
        ascii_duration_unit(u2),
    ensures
        duration_text_admitted(ds1 + u1 + ds2 + u2),
{
    let t = ds1 + u1 + ds2 + u2;
    let e1: int = (ds1.len() + u1.len()) as int;
    let n = t.len() as int;
    assert(t.subrange(0, ds1.len() as int) =~= ds1);
    assert(t.subrange(ds1.len() as int, e1) =~= u1);
    assert(t.subrange(e1, e1 + ds2.len()) =~= ds2);
    assert(t.subrange(e1 + ds2.len(), n) =~= u2);
    assert(t[0] == ds1[0]);
    assert(t[e1] == ds2[0]);
    lemma_token_first_digit(t);
    let total1 = lemma_token_next(t, 0, ds1, u1, 0);
    lemma_token_unit(t, e1, ds2, u2, total1, u2.len() as int);
    let st2 = duration_scan(t, n);
    if st2.mode == ScanMode::Unit {
        lemma_close_token_end(t, st2, u2, ds2.len(), total1);
    }
}

proof fn lemma_close_token_end(t: Seq<char>, st: DurationScan, u: Seq<char>, n: nat, total: int)
    requires
        ascii_duration_unit(u),
        0 <= st.unit_start <= t.len(),
        t.subrange(st.unit_start, t.len() as int) == u,
        st.mode == ScanMode::Unit,
        st.unit_ascii,
        !st.frac_nonzero,
        0 <= st.int_part < power_of_ten(n),
        n <= 6,
        st.total == total,
        0 <= total <= 3_600_000_000_000_000_000,
    ensures
        close_unit(t, st, t.len() as int, true).mode != ScanMode::Stuck,
{
    assert(seq!['n', 's'].len() == 2 && seq!['u', 's'].len() == 2 && seq!['m', 's'].len() == 2);
    assert(seq!['s'].len() == 1 && seq!['m'].len() == 1 && seq!['h'].len() == 1);
    assert(seq!['s'][0] == 's' && seq!['m'][0] == 'm' && seq!['h'][0] == 'h');
    assert(seq!['n', 's'][0] == 'n' && seq!['u', 's'][0] == 'u' && seq!['m', 's'][0] == 'm');
    let w = unit_nanos(u);
    assert(1 <= w <= 3_600_000_000_000);
    lemma_power_of_ten_mono(n, 6);
    assert(power_of_ten(6) == 1_000_000) by {
        reveal_with_fuel(power_of_ten, 7);
    }
    assert(st.int_part * w <= 1_000_000 * 3_600_000_000_000) by (nonlinear_arith)
        requires
            0 <= st.int_part < 1_000_000,
            1 <= w <= 3_600_000_000_000,
    ;
}


/// A flag, parameter or repeat field reads an `env_aliases = [...]` or `aliases = [...]`
/// argument as exactly the listed names, in order, changing nothing else.
pub proof fn law_field_reads_listed_aliases(
    kind: FieldKind,
    name: Seq<char>,
    st: OptionsView,
    arg: AttrArg,
    items: Seq<Lit>,
)
    requires
        kind == FieldKind::Flag || kind == FieldKind::Parameter || kind == FieldKind::Repeat,
        arg.key@ == "env_aliases"@ || arg.key@ == "aliases"@,
        arg.value is Array,
        arg.value->Array_0@ == items,
        items.len() > 0,
        forall|i: int| 0 <= i < items.len() ==> (#[trigger] items[i]) is Str,
        arg.key@ == "env_aliases"@ ==> st.env_aliases is None,
        arg.key@ == "aliases"@ ==> st.aliases is None,
    ensures
        spec_field_arg(kind, name, st, arg) matches Ok(after) && if arg.key@ == "env_aliases"@ {
            &&& after.env_aliases matches Some(listed) && lists_strings(listed, items)
            &&& after == (OptionsView { env_aliases: after.env_aliases, ..st })
        } else {
            &&& after.aliases matches Some(listed) && lists_strings(listed, items)
            &&& after == (OptionsView { aliases: after.aliases, ..st })
        },
{
    law_listed_aliases_are_kept(name, st, arg, items);
    reveal_strlit("env_aliases");
    reveal_strlit("aliases");
    reveal_strlit("flag");
    reveal_strlit("parameter");
    reveal_strlit("repeat");
    assert("env_aliases"@.len() == 11 && "aliases"@.len() == 7 && "flag"@.len() == 4
        && "parameter"@.len() == 9 && "repeat"@.len() == 6);
    assert(arg.key@ != kind_keyword(kind));
}


/// Whether two texts differ at most in the case of ASCII letters.
pub open spec fn same_up_to_ascii_case(s1: Seq<char>, s2: Seq<char>) -> bool {
    &&& s1.len() == s2.len()
    &&& forall|i: int|
        0 <= i < s1.len() ==> {
            ||| #[trigger] s1[i] == s2[i]
            ||| 'A' <= s1[i] <= 'Z' && s2[i] as int == s1[i] as int + 32
            ||| 'A' <= s2[i] <= 'Z' && s1[i] as int == s2[i] as int + 32
        }
}

proof fn lemma_case_keeps_whitespace(s1: Seq<char>, s2: Seq<char>, i: int)
    requires
        same_up_to_ascii_case(s1, s2),
        0 <= i < s1.len(),
    ensures
        is_whitespace(s1[i]) == is_whitespace(s2[i]),
        ascii_lower(s1[i]) == ascii_lower(s2[i]),
{
    let a = s1[i];
    let b = s2[i];
    if a != b {
        if 'A' <= a <= 'Z' {
            assert(((a as u32) + 32) as char == b) by {
                assert((((a as u32) + 32) as char) as int == b as int);
            }
        } else {
            assert(((b as u32) + 32) as char == a) by {
                assert((((b as u32) + 32) as char) as int == a as int);
            }
        }
    }
}

proof fn lemma_case_leading_ws(s1: Seq<char>, s2: Seq<char>)
    requires
        same_up_to_ascii_case(s1, s2),
    ensures
        leading_ws(s1) == leading_ws(s2),
    decreases s1.len(),
{
    if s1.len() > 0 {
        lemma_case_keeps_whitespace(s1, s2, 0);
        assert forall|i: int| 0 <= i < s1.drop_first().len() implies {
            ||| #[trigger] s1.drop_first()[i] == s2.drop_first()[i]
            ||| 'A' <= s1.drop_first()[i] <= 'Z' && s2.drop_first()[i] as int == s1.drop_first()[i] as int + 32
            ||| 'A' <= s2.drop_first()[i] <= 'Z' && s1.drop_first()[i] as int == s2.drop_first()[i] as int + 32
        } by {
            assert(s1.drop_first()[i] == s1[i + 1] && s2.drop_first()[i] == s2[i + 1]);
        }
        lemma_case_leading_ws(s1.drop_first(), s2.drop_first());
    }
}

proof fn lemma_case_trailing_ws(s1: Seq<char>, s2: Seq<char>)
    requires
        same_up_to_ascii_case(s1, s2),
    ensures
        trailing_ws(s1) == trailing_ws(s2),
    decreases s1.len(),
{
    if s1.len() > 0 {
        lemma_case_keeps_whitespace(s1, s2, s1.len() - 1);
        assert forall|i: int| 0 <= i < s1.drop_last().len() implies {
            ||| #[trigger] s1.drop_last()[i] == s2.drop_last()[i]
            ||| 'A' <= s1.drop_last()[i] <= 'Z' && s2.drop_last()[i] as int == s1.drop_last()[i] as int + 32
            ||| 'A' <= s2.drop_last()[i] <= 'Z' && s1.drop_last()[i] as int == s2.drop_last()[i] as int + 32
        } by {
            assert(s1.drop_last()[i] == s1[i] && s2.drop_last()[i] == s2[i]);
        }
        lemma_case_trailing_ws(s1.drop_last(), s2.drop_last());
    }
}

proof fn lemma_leading_ws_bound(s: Seq<char>)
    ensures
        0 <= leading_ws(s) <= s.len(),
    decreases s.len(),
{
    if s.len() > 0 {
        lemma_leading_ws_bound(s.drop_first());
    }
}

proof fn lemma_trailing_ws_bound(s: Seq<char>)
    ensures
        0 <= trailing_ws(s) <= s.len(),
    decreases s.len(),
{
    if s.len() > 0 {
        lemma_trailing_ws_bound(s.drop_last());
    }
}

/// Shell names are read without regard to the case of ASCII letters: two texts that differ
/// only in it name the same shell, or none.
pub proof fn law_shell_names_ignore_case(s1: Seq<char>, s2: Seq<char>)
    requires
        same_up_to_ascii_case(s1, s2),
    ensures
        spec_parse_shell(s1) == spec_parse_shell(s2),
{
    lemma_case_leading_ws(s1, s2);
    lemma_leading_ws_bound(s1);
    let l = leading_ws(s1);
    let r1 = s1.skip(l);
    let r2 = s2.skip(l);
    assert forall|i: int| 0 <= i < r1.len() implies {
        ||| #[trigger] r1[i] == r2[i]
        ||| 'A' <= r1[i] <= 'Z' && r2[i] as int == r1[i] as int + 32
        ||| 'A' <= r2[i] <= 'Z' && r1[i] as int == r2[i] as int + 32
    } by {
        assert(r1[i] == s1[i + l] && r2[i] == s2[i + l]);
    }
    lemma_case_trailing_ws(r1, r2);
    lemma_trailing_ws_bound(r1);
    let t1 = spec_trim(s1);
    let t2 = spec_trim(s2);
    assert(t1.len() == t2.len());
    assert forall|i: int| 0 <= i < t1.len() implies ascii_lower(#[trigger] t1[i]) == ascii_lower(t2[i]) by {
        assert(t1[i] == s1[i + l] && t2[i] == s2[i + l]);
        lemma_case_keeps_whitespace(s1, s2, i + l);
    }
    assert(spec_ascii_lowercase(t1) =~= spec_ascii_lowercase(t2));
}

} // verus!
