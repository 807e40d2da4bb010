//! The decisions that initialize a field of a configuration structure from what was read: the
//! precedence of command line and environment, document, and defaults for a parameter, and
//! the collection of every invalid value of a repeat parameter. The values themselves are
//! parsed by the field's value parser, which the caller runs; these functions take its
//! results.
use vstd::prelude::*;
use crate::conf_context::{ConfContext, ConfValueSource};
use crate::derive_fields::{FieldItem, FieldItemView, FieldKind};
use crate::error::{DebugInfoView, InnerError, InnerErrorView};
use crate::error_report::errors_view;
use crate::program_option::{ProgramOption, ProgramOptionView, strs_view};
use crate::text::string_of;

verus! {

/// A copy of an owned value source.
pub fn source_copy(s: &ConfValueSource<String>) -> (r: ConfValueSource<String>)
    ensures
        r@ == s@,
{
    match s {
        ConfValueSource::Args => ConfValueSource::Args,
        ConfValueSource::Env(n) => ConfValueSource::Env(string_of(n.as_str())),
        ConfValueSource::Document(n) => ConfValueSource::Document(string_of(n.as_str())),
        ConfValueSource::Default => ConfValueSource::Default,
    }
}

/// A parse result with its error message as characters.
pub open spec fn parse_view<T>(p: Result<T, String>) -> Result<T, Seq<char>> {
    match p {
        Ok(t) => Ok(t),
        Err(m) => Err(m@),
    }
}

/// Whether every value parsed.
pub open spec fn all_parsed<T>(parsed: Seq<Result<T, String>>) -> bool {
    forall|i: int| 0 <= i < parsed.len() ==> (#[trigger] parsed[i]) is Ok
}

/// The parsed values, in order.
pub open spec fn parsed_values<T>(parsed: Seq<Result<T, String>>) -> Seq<T>
    decreases parsed.len(),
{
    if parsed.len() == 0 {
        Seq::empty()
    } else {
        let rest = parsed_values(parsed.drop_last());
        match parsed.last() {
            Ok(t) => rest.push(t),
            Err(_) => rest,
        }
    }
}

/// One invalid-value error for each value that did not parse, in order: the value's source,
/// its text, the option and the parser's message.
pub open spec fn spec_invalid_values<T>(
    src: ConfValueSource<Seq<char>>,
    texts: Seq<Seq<char>>,
    parsed: Seq<Result<T, String>>,
    opt: ProgramOptionView,
) -> Seq<InnerErrorView>
    decreases parsed.len(),
{
    if parsed.len() == 0 {
        Seq::empty()
    } else {
        let n = parsed.len() - 1;
        let rest = spec_invalid_values(src, texts.take(n as int), parsed.drop_last(), opt);
        match parsed.last() {
            Ok(_) => rest,
            Err(m) => rest.push(
                InnerErrorView::InvalidParameterValue(src, texts[n as int], opt, m@),
            ),
        }
    }
}

proof fn lemma_invalid_values_empty<T>(
    src: ConfValueSource<Seq<char>>,
    texts: Seq<Seq<char>>,
    parsed: Seq<Result<T, String>>,
    opt: ProgramOptionView,
)
    ensures
        all_parsed(parsed) <==> spec_invalid_values(src, texts, parsed, opt).len() == 0,
    decreases parsed.len(),
{
    if parsed.len() > 0 {
        let n = parsed.len() - 1;
        lemma_invalid_values_empty(src, texts.take(n as int), parsed.drop_last(), opt);
        if all_parsed(parsed) {
            assert forall|i: int| 0 <= i < parsed.drop_last().len() implies (
            #[trigger] parsed.drop_last()[i]) is Ok by {
                assert(parsed[i] is Ok);
            }
            assert(parsed[n as int] is Ok);
        } else if all_parsed(parsed.drop_last()) {
            let k = choose|i: int| 0 <= i < parsed.len() && !(#[trigger] parsed[i] is Ok);
            if k < n {
                assert(parsed.drop_last()[k] is Ok);
            }
        }
    }
}

/// The values of a repeat parameter, each parsed by the field's value parser (`parsed[i]` is
/// the result for `texts[i]`): all parsed values in order, or, if any value did not parse,
/// one invalid-value error for each one that did not, in order. Parsing does not stop at the
/// first failure, so that every problem is reported at once.
pub fn collect_repeat_values<T>(
    src: ConfValueSource<String>,
    texts: &Vec<String>,
    parsed: Vec<Result<T, String>>,
    opt: &ProgramOption,
) -> (r: Result<Vec<T>, Vec<InnerError>>)
    requires
        parsed.len() == texts.len(),
    ensures
        r is Ok <==> all_parsed(parsed@),
        r matches Ok(v) ==> v@ == parsed_values(parsed@),
        r matches Err(es) ==> errors_view(es@) == spec_invalid_values(
            src@,
            strs_view(texts@),
            parsed@,
            opt@,
        ),
{
    let ghost all = parsed@;
    let ghost tv = strs_view(texts@);
    let n = parsed.len();
    let mut rest = parsed;
    let mut values: Vec<T> = Vec::new();
    let mut errors: Vec<InnerError> = Vec::new();
    let mut i: usize = 0;
    while i < n
        invariant
            n == all.len(),
            n == texts@.len(),
            tv == strs_view(texts@),
            i <= n,
            rest@ == all.skip(i as int),
            values@ == parsed_values(all.take(i as int)),
            errors_view(errors@) == spec_invalid_values(src@, tv.take(i as int), all.take(i as int), opt@),
        decreases n - i,
    {
        let p = rest.remove(0);
        assert(p == all[i as int]);
        assert(all.take(i + 1).drop_last() =~= all.take(i as int));
        assert(tv.take(i + 1).take(i as int) =~= tv.take(i as int));
        assert(all.take(i + 1).last() == all[i as int]);
        assert(tv.take(i + 1)[i as int] == texts@[i as int]@);
        match p {
            Ok(t) => {
                values.push(t);
            },
            Err(m) => {
                let ghost before = errors_view(errors@);
                let e = InnerError::InvalidParameterValue(
                    source_copy(&src),
                    string_of(texts[i].as_str()),
                    Box::new(opt.duplicate()),
                    m,
                );
                errors.push(e);
                assert(errors_view(errors@) =~= before.push(e@));
            },
        }
        assert(rest@ =~= all.skip(i + 1));
        i = i + 1;
    }
    assert(all.take(n as int) =~= all);
    assert(tv.take(n as int) =~= tv);
    proof {
        lemma_invalid_values_empty(src@, tv, all, opt@);
    }
    if errors.len() == 0 {
        Ok(values)
    } else {
        Err(errors)
    }
}

/// The values of a repeat parameter and where they came from, by precedence: the values
/// found on the command line or in the environment (`collected` is what
/// `collect_repeat_values` made of them: all parsed values, or every invalid-value error),
/// else the document's values, else none, by default.
pub fn resolve_repeat<T>(
    found: Option<ConfValueSource<String>>,
    collected: Option<Result<Vec<T>, Vec<InnerError>>>,
    doc: Option<(String, Vec<T>)>,
) -> (r: Result<(ConfValueSource<String>, Vec<T>), Vec<InnerError>>)
    requires
        found is Some <==> collected is Some,
    ensures
        match found {
            Some(src) => match collected.unwrap() {
                Ok(v) => r matches Ok((s, w)) && s@ == src@ && w@ == v@,
                Err(es) => r matches Err(fs) && errors_view(fs@) == errors_view(es@),
            },
            None => match doc {
                Some((name, v)) => r matches Ok((s, w)) && s@ == ConfValueSource::Document(name@)
                    && w@ == v@,
                None => r matches Ok((s, w)) && s is Default && w@.len() == 0,
            },
        },
{
    match found {
        Some(src) => match collected {
            Some(Ok(v)) => Ok((src, v)),
            Some(Err(es)) => Err(es),
            None => {
                assert(false);
                Err(Vec::new())
            },
        },
        None => match doc {
            Some((name, v)) => Ok((ConfValueSource::Document(name), v)),
            None => Ok((ConfValueSource::Default, Vec::new())),
        },
    }
}

/// The errors among the results of a structure's checks, in order.
pub open spec fn failures(results: Seq<Result<(), InnerError>>) -> Seq<InnerErrorView>
    decreases results.len(),
{
    if results.len() == 0 {
        Seq::empty()
    } else {
        let rest = failures(results.drop_last());
        match results.last() {
            Ok(_) => rest,
            Err(e) => rest.push(e@),
        }
    }
}

proof fn lemma_failures_empty(results: Seq<Result<(), InnerError>>)
    ensures
        (forall|i: int| 0 <= i < results.len() ==> (#[trigger] results[i]) is Ok) <==> failures(
            results,
        ).len() == 0,
    decreases results.len(),
{
    if results.len() > 0 {
        let n = results.len() - 1;
        lemma_failures_empty(results.drop_last());
        if forall|i: int| 0 <= i < results.len() ==> (#[trigger] results[i]) is Ok {
            assert forall|i: int| 0 <= i < results.drop_last().len() implies (
            #[trigger] results.drop_last()[i]) is Ok by {
                assert(results[i] is Ok);
            }
            assert(results[n] is Ok);
        } else if forall|i: int| 0 <= i < results.drop_last().len() ==> (
        #[trigger] results.drop_last()[i]) is Ok {
            let k = choose|i: int| 0 <= i < results.len() && !(#[trigger] results[i] is Ok);
            if k < n {
                assert(results.drop_last()[k] is Ok);
            }
        }
    }
}

/// The outcome of a structure's checks (its field constraints and its validation predicate):
/// every failure, in order, if any check failed; the checks do not stop at the first failure.
pub fn collect_failures(results: Vec<Result<(), InnerError>>) -> (r: Result<(), Vec<InnerError>>)
    ensures
        r is Ok <==> forall|i: int| 0 <= i < results@.len() ==> (#[trigger] results@[i]) is Ok,
        r matches Err(es) ==> errors_view(es@) == failures(results@),
{
    let ghost all = results@;
    let n = results.len();
    let mut rest = results;
    let mut errors: Vec<InnerError> = Vec::new();
    let mut i: usize = 0;
    while i < n
        invariant
            n == all.len(),
            i <= n,
            rest@ == all.skip(i as int),
            errors_view(errors@) == failures(all.take(i as int)),
        decreases n - i,
    {
        let res = rest.remove(0);
        assert(res == all[i as int]);
        assert(all.take(i + 1).drop_last() =~= all.take(i as int));
        assert(all.take(i + 1).last() == all[i as int]);
        match res {
            Ok(_) => {},
            Err(e) => {
                let ghost before = errors_view(errors@);
                let ghost ev = e@;
                errors.push(e);
                assert(errors_view(errors@) =~= before.push(ev));
            },
        }
        assert(rest@ =~= all.skip(i + 1));
        i = i + 1;
    }
    assert(all.take(n as int) =~= all);
    proof {
        lemma_failures_empty(all);
    }
    if errors.len() == 0 {
        Ok(())
    } else {
        Err(errors)
    }
}

/// What a parameter takes when neither the command line nor the environment gives it a
/// value, and no document does.
pub enum MissingValuePlan {
    /// Parse this default text with the value parser; the source is `Default`.
    ParseDefault(String),
    /// Take the value of the field's default expression.
    UseDefaultExpr,
    /// No value: the field is an `Option` and becomes `None`.
    NoValue,
    /// A missing-required-parameter error.
    Missing,
}

/// The content of a `MissingValuePlan`.
pub enum MissingValuePlanView {
    ParseDefault(Seq<char>),
    UseDefaultExpr,
    NoValue,
    Missing,
}

impl View for MissingValuePlan {
    type V = MissingValuePlanView;

    open spec fn view(&self) -> MissingValuePlanView {
        match self {
            MissingValuePlan::ParseDefault(d) => MissingValuePlanView::ParseDefault(d@),
            MissingValuePlan::UseDefaultExpr => MissingValuePlanView::UseDefaultExpr,
            MissingValuePlan::NoValue => MissingValuePlanView::NoValue,
            MissingValuePlan::Missing => MissingValuePlanView::Missing,
        }
    }
}

/// The plan of a parameter field for a missing value: its default expression, else its
/// default text, else `None` if its type is an `Option`, else the missing-value error. A
/// field that is not a parameter has no such plan.
pub open spec fn spec_missing_value_plan(f: FieldItemView) -> Option<MissingValuePlanView> {
    if f.kind != FieldKind::Parameter {
        None
    } else if f.options.default_value_expr is Some {
        Some(MissingValuePlanView::UseDefaultExpr)
    } else if f.options.default_value is Some {
        Some(MissingValuePlanView::ParseDefault(f.options.default_value.unwrap()))
    } else if f.is_optional_type {
        Some(MissingValuePlanView::NoValue)
    } else {
        Some(MissingValuePlanView::Missing)
    }
}

/// The plan of a parameter field for a missing value (see `spec_missing_value_plan`).
pub fn missing_value_plan(item: &FieldItem) -> (r: Option<MissingValuePlan>)
    ensures
        match r {
            Some(p) => Some(p@),
            None => None,
        } == spec_missing_value_plan(item@),
{
    if item.kind != FieldKind::Parameter {
        None
    } else if item.options.default_value_expr.is_some() {
        Some(MissingValuePlan::UseDefaultExpr)
    } else if let Some(d) = &item.options.default_value {
        Some(MissingValuePlan::ParseDefault(string_of(d.as_str())))
    } else if item.is_optional_type {
        Some(MissingValuePlan::NoValue)
    } else {
        Some(MissingValuePlan::Missing)
    }
}

/// A found value: its source and text.
pub open spec fn found_view(found: Option<(ConfValueSource<String>, String)>) -> Option<
    (ConfValueSource<Seq<char>>, Seq<char>),
> {
    match found {
        Some((s, t)) => Some((s@, t@)),
        None => None,
    }
}

/// A parameter's value in a document: already deserialized into the field's type, or text
/// that the field's value parser reads (the `use_value_parser` option of `serde`).
pub enum DocValue<T> {
    Value(T),
    Text(String),
}

/// The content of a `DocValue`.
pub enum DocValueView<T> {
    Value(T),
    Text(Seq<char>),
}

/// A document's name and value, as characters.
pub open spec fn doc_view<T>(doc: Option<(String, DocValue<T>)>) -> Option<(Seq<char>, DocValueView<T>)> {
    match doc {
        Some((n, DocValue::Value(v))) => Some((n@, DocValueView::Value(v))),
        Some((n, DocValue::Text(t))) => Some((n@, DocValueView::Text(t@))),
        None => None,
    }
}

/// The text that the value parser reads for a parameter, with its source: the value found on
/// the command line or in the environment; else the document's text, if it gives text, or
/// nothing if it gives a value; else the default text if the plan parses one, else nothing.
pub open spec fn spec_parameter_text<T>(
    found: Option<(ConfValueSource<Seq<char>>, Seq<char>)>,
    doc: Option<(Seq<char>, DocValueView<T>)>,
    plan: MissingValuePlanView,
) -> Option<(ConfValueSource<Seq<char>>, Seq<char>)> {
    match found {
        Some(f) => Some(f),
        None => match doc {
            Some((name, DocValueView::Text(t))) => Some((ConfValueSource::Document(name), t)),
            Some((_, DocValueView::Value(_))) => None,
            None => match plan {
                MissingValuePlanView::ParseDefault(d) => Some((ConfValueSource::Default, d)),
                _ => None,
            },
        },
    }
}

/// The text that the value parser reads for a parameter (see `spec_parameter_text`).
pub fn parameter_text<T>(
    found: &Option<(ConfValueSource<String>, String)>,
    doc: &Option<(String, DocValue<T>)>,
    plan: &MissingValuePlan,
) -> (r: Option<(ConfValueSource<String>, String)>)
    ensures
        found_view(r) == spec_parameter_text(found_view(*found), doc_view(*doc), plan@),
{
    match found {
        Some((s, t)) => Some((source_copy(s), string_of(t.as_str()))),
        None => match doc {
            Some((name, DocValue::Text(t))) => Some(
                (ConfValueSource::Document(string_of(name.as_str())), string_of(t.as_str())),
            ),
            Some((_, DocValue::Value(_))) => None,
            None => match plan {
                MissingValuePlan::ParseDefault(d) => Some(
                    (ConfValueSource::Default, string_of(d.as_str())),
                ),
                _ => None,
            },
        },
    }
}

/// The value of a parameter and where it came from, by precedence: a value found on the
/// command line or in the environment (parsed), else the document's value (its text parsed,
/// if it gives text), else by the plan: the default text (parsed), the default expression's
/// value, no value, or the missing-required-parameter error of the context. A text that does
/// not parse is an invalid-value error with its source, text, the option and the parser's
/// message.
pub open spec fn spec_resolve_parameter<T>(
    found: Option<(ConfValueSource<Seq<char>>, Seq<char>)>,
    doc: Option<(Seq<char>, DocValueView<T>)>,
    parsed: Option<Result<T, Seq<char>>>,
    default_expr: Option<T>,
    plan: MissingValuePlanView,
    opt: ProgramOptionView,
    debug_info: Option<DebugInfoView>,
) -> Result<Option<(ConfValueSource<Seq<char>>, T)>, InnerErrorView> {
    match spec_parameter_text(found, doc, plan) {
        Some((src, text)) => match parsed.unwrap() {
            Ok(t) => Ok(Some((src, t))),
            Err(m) => Err(InnerErrorView::InvalidParameterValue(src, text, opt, m)),
        },
        None => match doc {
            Some((name, DocValueView::Value(v))) => Ok(Some((ConfValueSource::Document(name), v))),
            _ => match plan {
                MissingValuePlanView::UseDefaultExpr => Ok(
                    Some((ConfValueSource::Default, default_expr.unwrap())),
                ),
                MissingValuePlanView::NoValue => Ok(None),
                _ => Err(InnerErrorView::MissingRequiredParameter(opt, debug_info)),
            },
        },
    }
}

/// The value of a parameter and its source (see `spec_resolve_parameter`). `found` is what
/// the context read from the command line and environment; `doc` is the document's value or
/// text, with the document's name; `parsed` is the value parser's result on the text that
/// `parameter_text` gives, if it gives one; `default_expr` is the value of the field's
/// default expression, needed when the plan uses it.
pub fn resolve_parameter<T>(
    ctx: &ConfContext,
    found: Option<(ConfValueSource<String>, String)>,
    doc: Option<(String, DocValue<T>)>,
    parsed: Option<Result<T, String>>,
    default_expr: Option<T>,
    plan: &MissingValuePlan,
    opt: &ProgramOption,
) -> (r: Result<Option<(ConfValueSource<String>, T)>, InnerError>)
    requires
        parsed is Some <==> spec_parameter_text(found_view(found), doc_view(doc), plan@) is Some,
        found is None && doc is None && plan@ is UseDefaultExpr ==> default_expr is Some,
    ensures
        match r {
            Ok(Some((s, t))) => Ok(Some((s@, t))),
            Ok(None) => Ok(None),
            Err(e) => Err(e@),
        } == spec_resolve_parameter(
            found_view(found),
            doc_view(doc),
            match parsed {
                Some(p) => Some(parse_view(p)),
                None => None,
            },
            default_expr,
            plan@,
            opt@,
            ctx.spec_debug_info(),
        ),
{
    let text = parameter_text(&found, &doc, plan);
    match text {
        Some((src, t)) => match parsed {
            Some(Ok(v)) => Ok(Some((src, v))),
            Some(Err(m)) => Err(
                InnerError::InvalidParameterValue(src, t, Box::new(opt.duplicate()), m),
            ),
            None => {
                assert(false);
                Ok(None)
            },
        },
        None => match doc {
            Some((name, DocValue::Value(v))) => Ok(Some((ConfValueSource::Document(name), v))),
            _ => match plan {
                MissingValuePlan::UseDefaultExpr => match default_expr {
                    Some(v) => Ok(Some((ConfValueSource::Default, v))),
                    None => {
                        assert(false);
                        Ok(None)
                    },
                },
                MissingValuePlan::NoValue => Ok(None),
                _ => Err(ctx.missing_required_parameter_error(opt)),
            },
        },
    }
}

} // verus!
