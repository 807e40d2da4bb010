//! Reporting several errors at once: the errors are sorted in the order of `error_order`,
//! and each kind of error is reported under one title.
use vstd::prelude::*;
use crate::conf_context::ConfValueSource;
use vstd::multiset::Multiset;
use vstd::relations::sorted_by;
use vstd::seq_lib::{group_to_multiset_ensures, lemma_sorted_unique};
use crate::error::{InnerError, InnerErrorView, OwnedFlattenedOptionalDebugInfo, debug_info_view, options_view};
use crate::error_render::{ErrorKind, StyleCodes, spec_body, spec_error_kind, spec_solo, spec_title};
use crate::text::str_eq;
use crate::error_order::{
    bool_order, byte_order_fn, bytes_order, char_order, char_order_fn, chars_order,
    chars_order_fn, int_order, opt_bool_order, opt_char_order, opt_chars_order,
    option_view_order, parse_type_index, seq_order_from, strs_order, source_index, source_order,
    debug_info_order, opt_debug_info_order, debug_info_order_fn, options_order,
    option_view_order_fn, appeared_list_order, appeared_order_fn, field_appeared_list_order,
    field_appeared_order_fn, error_order, error_index, opt_bytes_order, error_le, error_le_fn,
    lemma_error_le_total,
};
use crate::program_option::{ParseType, ProgramOption};

verus! {

/// `int_order` of two small integers.
fn compare_u8(a: u8, b: u8) -> (r: i8)
    ensures
        r == int_order(a as int, b as int),
{
    if a < b {
        -1
    } else if a == b {
        0
    } else {
        1
    }
}

/// `bool_order`.
fn compare_bool(a: bool, b: bool) -> (r: i8)
    ensures
        r == bool_order(a, b),
{
    if a == b {
        0
    } else if !a {
        -1
    } else {
        1
    }
}

/// `char_order`.
fn compare_char(a: char, b: char) -> (r: i8)
    ensures
        r == char_order(a, b),
{
    if a < b {
        -1
    } else if a == b {
        0
    } else {
        1
    }
}

/// `parse_type_index`.
fn parse_type_rank(t: ParseType) -> (r: u8)
    ensures
        r as int == parse_type_index(t),
{
    match t {
        ParseType::Flag => 0,
        ParseType::Parameter => 1,
        ParseType::Repeat => 2,
    }
}

/// `chars_order`.
pub fn compare_str(a: &str, b: &str) -> (r: i8)
    ensures
        r == chars_order(a@, b@),
{
    let n = a.unicode_len();
    let m = b.unicode_len();
    let mut i: usize = 0;
    while i < n && i < m
        invariant
            n == a@.len(),
            m == b@.len(),
            i <= n,
            i <= m,
            chars_order(a@, b@) == seq_order_from(a@, b@, char_order_fn(), i as int),
        decreases n - i,
    {
        let c = compare_char(a.get_char(i), b.get_char(i));
        if c != 0 {
            return c;
        }
        i = i + 1;
    }
    if i < n {
        1
    } else if i < m {
        -1
    } else {
        0
    }
}

/// `bytes_order`.
fn compare_bytes(a: &Vec<u8>, b: &Vec<u8>) -> (r: i8)
    ensures
        r == bytes_order(a@, b@),
{
    let n = a.len();
    let m = b.len();
    let mut i: usize = 0;
    while i < n && i < m
        invariant
            n == a@.len(),
            m == b@.len(),
            i <= n,
            i <= m,
            bytes_order(a@, b@) == seq_order_from(a@, b@, byte_order_fn(), i as int),
        decreases n - i,
    {
        let c = compare_u8(a[i], b[i]);
        if c != 0 {
            return c;
        }
        i = i + 1;
    }
    if i < n {
        1
    } else if i < m {
        -1
    } else {
        0
    }
}

/// `strs_order`.
fn compare_strs(a: &Vec<String>, b: &Vec<String>) -> (r: i8)
    ensures
        r == strs_order(a@.map_values(|s: String| s@), b@.map_values(|s: String| s@)),
{
    let ghost av = a@.map_values(|s: String| s@);
    let ghost bv = b@.map_values(|s: String| s@);
    let n = a.len();
    let m = b.len();
    let mut i: usize = 0;
    while i < n && i < m
        invariant
            n == av.len(),
            m == bv.len(),
            av == a@.map_values(|s: String| s@),
            bv == b@.map_values(|s: String| s@),
            i <= n,
            i <= m,
            strs_order(av, bv) == seq_order_from(av, bv, chars_order_fn(), i as int),
        decreases n - i,
    {
        let c = compare_str(a[i].as_str(), b[i].as_str());
        if c != 0 {
            return c;
        }
        i = i + 1;
    }
    if i < n {
        1
    } else if i < m {
        -1
    } else {
        0
    }
}

/// `opt_chars_order`.
fn compare_opt_str(a: &Option<String>, b: &Option<String>) -> (r: i8)
    ensures
        r == opt_chars_order(crate::program_option::opt_view(*a), crate::program_option::opt_view(*b)),
{
    match (a, b) {
        (None, None) => 0,
        (None, Some(_)) => -1,
        (Some(_), None) => 1,
        (Some(x), Some(y)) => compare_str(x.as_str(), y.as_str()),
    }
}

/// `opt_char_order`.
fn compare_opt_char(a: Option<char>, b: Option<char>) -> (r: i8)
    ensures
        r == opt_char_order(a, b),
{
    match (a, b) {
        (None, None) => 0,
        (None, Some(_)) => -1,
        (Some(_), None) => 1,
        (Some(x), Some(y)) => compare_char(x, y),
    }
}

/// `opt_bool_order`.
fn compare_opt_bool(a: Option<bool>, b: Option<bool>) -> (r: i8)
    ensures
        r == opt_bool_order(a, b),
{
    match (a, b) {
        (None, None) => 0,
        (None, Some(_)) => -1,
        (Some(_), None) => 1,
        (Some(x), Some(y)) => compare_bool(x, y),
    }
}

/// `option_view_order`: program options field by field.
pub fn compare_options(a: &ProgramOption, b: &ProgramOption) -> (r: i8)
    ensures
        r == option_view_order(a@, b@),
{
    let c = compare_str(a.id.as_str(), b.id.as_str());
    if c != 0 {
        return c;
    }
    let c = compare_u8(parse_type_rank(a.parse_type), parse_type_rank(b.parse_type));
    if c != 0 {
        return c;
    }
    let c = compare_opt_str(&a.description, &b.description);
    if c != 0 {
        return c;
    }
    let c = compare_opt_char(a.short_form, b.short_form);
    if c != 0 {
        return c;
    }
    let c = compare_opt_str(&a.long_form, &b.long_form);
    if c != 0 {
        return c;
    }
    let c = compare_strs(&a.aliases, &b.aliases);
    if c != 0 {
        return c;
    }
    let c = compare_opt_str(&a.env_form, &b.env_form);
    if c != 0 {
        return c;
    }
    let c = compare_strs(&a.env_aliases, &b.env_aliases);
    if c != 0 {
        return c;
    }
    let c = compare_opt_str(&a.default_value, &b.default_value);
    if c != 0 {
        return c;
    }
    let c = compare_opt_str(&a.default_help_str, &b.default_help_str);
    if c != 0 {
        return c;
    }
    let c = compare_bool(a.is_required, b.is_required);
    if c != 0 {
        return c;
    }
    let c = compare_bool(a.allow_hyphen_values, b.allow_hyphen_values);
    if c != 0 {
        return c;
    }
    let c = compare_opt_bool(a.secret, b.secret);
    if c != 0 {
        return c;
    }
    let c = compare_bool(a.is_positional, b.is_positional);
    if c != 0 {
        return c;
    }
    compare_bool(a.has_serde_source, b.has_serde_source)
}

/// `source_index`.
fn source_rank(s: &ConfValueSource<String>) -> (r: u8)
    ensures
        r as int == source_index(s@),
{
    match s {
        ConfValueSource::Args => 0,
        ConfValueSource::Env(_) => 1,
        ConfValueSource::Document(_) => 2,
        ConfValueSource::Default => 3,
    }
}

/// `source_order`.
fn compare_source(a: &ConfValueSource<String>, b: &ConfValueSource<String>) -> (r: i8)
    ensures
        r == source_order(a@, b@),
{
    match (a, b) {
        (ConfValueSource::Env(x), ConfValueSource::Env(y)) => compare_str(x.as_str(), y.as_str()),
        (ConfValueSource::Document(x), ConfValueSource::Document(y)) => compare_str(
            x.as_str(),
            y.as_str(),
        ),
        _ => compare_u8(source_rank(a), source_rank(b)),
    }
}

/// `debug_info_order`.
fn compare_debug_info(a: &OwnedFlattenedOptionalDebugInfo, b: &OwnedFlattenedOptionalDebugInfo) -> (r: i8)
    ensures
        r == debug_info_order(a@, b@),
{
    let c = compare_str(a.struct_name.as_str(), b.struct_name.as_str());
    if c != 0 {
        return c;
    }
    let c = compare_str(a.id_prefix.as_str(), b.id_prefix.as_str());
    if c != 0 {
        return c;
    }
    let c = compare_options(&a.option_appeared, &b.option_appeared);
    if c != 0 {
        return c;
    }
    compare_source(&a.value_source, &b.value_source)
}

/// `opt_debug_info_order`.
fn compare_opt_debug_info(
    a: &Option<Box<OwnedFlattenedOptionalDebugInfo>>,
    b: &Option<Box<OwnedFlattenedOptionalDebugInfo>>,
) -> (r: i8)
    ensures
        r == opt_debug_info_order(debug_info_view(*a), debug_info_view(*b)),
{
    match (a, b) {
        (None, None) => 0,
        (None, Some(_)) => -1,
        (Some(_), None) => 1,
        (Some(x), Some(y)) => compare_debug_info(x, y),
    }
}

/// `opt_bytes_order`.
fn compare_opt_bytes(a: &Option<Vec<u8>>, b: &Option<Vec<u8>>) -> (r: i8)
    ensures
        r == opt_bytes_order(
            match a {
                Some(v) => Some(v@),
                None => None,
            },
            match b {
                Some(v) => Some(v@),
                None => None,
            },
        ),
{
    match (a, b) {
        (None, None) => 0,
        (None, Some(_)) => -1,
        (Some(_), None) => 1,
        (Some(x), Some(y)) => compare_bytes(x, y),
    }
}

/// `options_order`.
fn compare_option_lists(a: &Vec<ProgramOption>, b: &Vec<ProgramOption>) -> (r: i8)
    ensures
        r == options_order(options_view(a@), options_view(b@)),
{
    let ghost av = options_view(a@);
    let ghost bv = options_view(b@);
    let n = a.len();
    let m = b.len();
    let mut i: usize = 0;
    while i < n && i < m
        invariant
            n == av.len(),
            m == bv.len(),
            av == options_view(a@),
            bv == options_view(b@),
            i <= n,
            i <= m,
            options_order(av, bv) == seq_order_from(av, bv, option_view_order_fn(), i as int),
        decreases n - i,
    {
        let c = compare_options(&a[i], &b[i]);
        if c != 0 {
            return c;
        }
        i = i + 1;
    }
    if i < n {
        1
    } else if i < m {
        -1
    } else {
        0
    }
}

/// `appeared_list_order`.
fn compare_appeared_lists(a: &Vec<(ProgramOption, ConfValueSource<String>)>, b: &Vec<(ProgramOption, ConfValueSource<String>)>) -> (r: i8)
    ensures
        r == appeared_list_order(
            a@.map_values(|p: (ProgramOption, ConfValueSource<String>)| (p.0@, p.1@)),
            b@.map_values(|p: (ProgramOption, ConfValueSource<String>)| (p.0@, p.1@)),
        ),
{
    let ghost av = a@.map_values(|p: (ProgramOption, ConfValueSource<String>)| (p.0@, p.1@));
    let ghost bv = b@.map_values(|p: (ProgramOption, ConfValueSource<String>)| (p.0@, p.1@));
    let n = a.len();
    let m = b.len();
    let mut i: usize = 0;
    while i < n && i < m
        invariant
            n == av.len(),
            m == bv.len(),
            av == a@.map_values(|p: (ProgramOption, ConfValueSource<String>)| (p.0@, p.1@)),
            bv == b@.map_values(|p: (ProgramOption, ConfValueSource<String>)| (p.0@, p.1@)),
            i <= n,
            i <= m,
            appeared_list_order(av, bv) == seq_order_from(av, bv, appeared_order_fn(), i as int),
        decreases n - i,
    {
        let c = compare_options(&a[i].0, &b[i].0);
        if c != 0 {
            return c;
        }
        let c = compare_source(&a[i].1, &b[i].1);
        if c != 0 {
            return c;
        }
        i = i + 1;
    }
    if i < n {
        1
    } else if i < m {
        -1
    } else {
        0
    }
}

/// `field_appeared_list_order`.
fn compare_field_appeared_lists(
    a: &Vec<(String, ProgramOption, ConfValueSource<String>)>,
    b: &Vec<(String, ProgramOption, ConfValueSource<String>)>,
) -> (r: i8)
    ensures
        r == field_appeared_list_order(
            a@.map_values(|p: (String, ProgramOption, ConfValueSource<String>)| (p.0@, p.1@, p.2@)),
            b@.map_values(|p: (String, ProgramOption, ConfValueSource<String>)| (p.0@, p.1@, p.2@)),
        ),
{
    let ghost av = a@.map_values(|p: (String, ProgramOption, ConfValueSource<String>)| (p.0@, p.1@, p.2@));
    let ghost bv = b@.map_values(|p: (String, ProgramOption, ConfValueSource<String>)| (p.0@, p.1@, p.2@));
    let n = a.len();
    let m = b.len();
    let mut i: usize = 0;
    while i < n && i < m
        invariant
            n == av.len(),
            m == bv.len(),
            av == a@.map_values(|p: (String, ProgramOption, ConfValueSource<String>)| (p.0@, p.1@, p.2@)),
            bv == b@.map_values(|p: (String, ProgramOption, ConfValueSource<String>)| (p.0@, p.1@, p.2@)),
            i <= n,
            i <= m,
            field_appeared_list_order(av, bv) == seq_order_from(
                av,
                bv,
                field_appeared_order_fn(),
                i as int,
            ),
        decreases n - i,
    {
        let c = compare_str(a[i].0.as_str(), b[i].0.as_str());
        if c != 0 {
            return c;
        }
        let c = compare_options(&a[i].1, &b[i].1);
        if c != 0 {
            return c;
        }
        let c = compare_source(&a[i].2, &b[i].2);
        if c != 0 {
            return c;
        }
        i = i + 1;
    }
    if i < n {
        1
    } else if i < m {
        -1
    } else {
        0
    }
}

/// The position of an error's kind in its declaration.
fn error_rank(e: &InnerError) -> (r: u8)
    ensures
        r as int == error_index(e@),
{
    match e {
        InnerError::MissingRequiredParameter(..) => 0,
        InnerError::InvalidParameterValue(..) => 1,
        InnerError::TooFewArguments(..) => 2,
        InnerError::TooManyArguments(..) => 3,
        InnerError::ValidationFailed(..) => 4,
        InnerError::InvalidUtf8Env(..) => 5,
    }
}

/// `error_order`: errors by kind, then field by field.
pub fn compare_errors(a: &InnerError, b: &InnerError) -> (r: i8)
    ensures
        r == error_order(a@, b@),
{
    match (a, b) {
        (
            InnerError::MissingRequiredParameter(o1, d1),
            InnerError::MissingRequiredParameter(o2, d2),
        ) => {
            let c = compare_options(o1, o2);
            if c != 0 {
                return c;
            }
            compare_opt_debug_info(d1, d2)
        },
        (
            InnerError::InvalidParameterValue(s1, v1, o1, m1),
            InnerError::InvalidParameterValue(s2, v2, o2, m2),
        ) => {
            let c = compare_source(s1, s2);
            if c != 0 {
                return c;
            }
            let c = compare_str(v1.as_str(), v2.as_str());
            if c != 0 {
                return c;
            }
            let c = compare_options(o1, o2);
            if c != 0 {
                return c;
            }
            compare_str(m1.as_str(), m2.as_str())
        },
        (
            InnerError::TooFewArguments(n1, p1, os1, fs1, d1),
            InnerError::TooFewArguments(n2, p2, os2, fs2, d2),
        ) => {
            let c = compare_str(n1.as_str(), n2.as_str());
            if c != 0 {
                return c;
            }
            let c = compare_str(p1.as_str(), p2.as_str());
            if c != 0 {
                return c;
            }
            let c = compare_option_lists(os1, os2);
            if c != 0 {
                return c;
            }
            let c = compare_strs(fs1, fs2);
            if c != 0 {
                return c;
            }
            compare_opt_debug_info(d1, d2)
        },
        (
            InnerError::TooManyArguments(n1, p1, ss1, fs1),
            InnerError::TooManyArguments(n2, p2, ss2, fs2),
        ) => {
            let c = compare_str(n1.as_str(), n2.as_str());
            if c != 0 {
                return c;
            }
            let c = compare_str(p1.as_str(), p2.as_str());
            if c != 0 {
                return c;
            }
            let c = compare_appeared_lists(ss1, ss2);
            if c != 0 {
                return c;
            }
            compare_field_appeared_lists(fs1, fs2)
        },
        (
            InnerError::ValidationFailed(n1, p1, m1),
            InnerError::ValidationFailed(n2, p2, m2),
        ) => {
            let c = compare_str(n1.as_str(), n2.as_str());
            if c != 0 {
                return c;
            }
            let c = compare_str(p1.as_str(), p2.as_str());
            if c != 0 {
                return c;
            }
            compare_str(m1.as_str(), m2.as_str())
        },
        (InnerError::InvalidUtf8Env(n1, o1, v1), InnerError::InvalidUtf8Env(n2, o2, v2)) => {
            let c = compare_str(n1.as_str(), n2.as_str());
            if c != 0 {
                return c;
            }
            let c = compare_options(o1, o2);
            if c != 0 {
                return c;
            }
            compare_opt_bytes(v1, v2)
        },
        _ => compare_u8(error_rank(a), error_rank(b)),
    }
}

/// The contents of a list of errors.
pub open spec fn errors_view(v: Seq<InnerError>) -> Seq<InnerErrorView> {
    v.map_values(|e: InnerError| e@)
}

/// The errors in the order in which they are reported.
pub open spec fn sorted_errors(v: Seq<InnerErrorView>) -> Seq<InnerErrorView> {
    v.sort_by(error_le_fn())
}

/// Inserts `e` into a sorted list, after every error that is not after it.
fn insert_sorted(sorted: &mut Vec<InnerError>, e: InnerError)
    requires
        sorted_by(errors_view(old(sorted)@), error_le_fn()),
    ensures
        sorted_by(errors_view(final(sorted)@), error_le_fn()),
        errors_view(final(sorted)@).to_multiset() == errors_view(old(sorted)@).to_multiset().insert(
            e@,
        ),
{
    proof {
        lemma_error_le_total();
    }
    let ghost v = errors_view(sorted@);
    let ghost le = error_le_fn();
    let n = sorted.len();
    let mut j: usize = 0;
    let mut found = false;
    while !found && j < n
        invariant
            n == sorted.len(),
            v == errors_view(sorted@),
            le == error_le_fn(),
            j <= n,
            forall|k: int| 0 <= k < j ==> #[trigger] le(v[k], e@),
            found ==> j < n && error_order(v[j as int], e@) > 0,
        decreases n - j + (if found {
            0int
        } else {
            1int
        }),
    {
        if compare_errors(&sorted[j], &e) > 0 {
            assert(v[j as int] == sorted@[j as int]@);
            found = true;
        } else {
            assert(v[j as int] == sorted@[j as int]@);
            assert(le(v[j as int], e@));
            j = j + 1;
        }
    }
    proof {
        if j < n {
            assert(error_order_fn_at(v[j as int], e@) == -error_order_fn_at(e@, v[j as int]));
            assert(le(e@, v[j as int]));
        }
        assert forall|k: int| j <= k < n implies #[trigger] le(e@, v[k]) by {
            if j < k {
                assert(le(v[j as int], v[k]));
                assert(le(e@, v[j as int]) && le(v[j as int], v[k]) ==> le(e@, v[k]));
            }
        }
    }
    let ghost j0 = j as int;
    sorted.insert(j, e);
    proof {
        let w = v.insert(j0, e@);
        assert(errors_view(sorted@) =~= w);
        assert forall|a: int, b: int| 0 <= a < b < w.len() implies #[trigger] le(w[a], w[b]) by {
            if b < j0 {
                assert(le(v[a], v[b]));
            } else if b == j0 {
                assert(le(v[a], e@));
            } else if a < j0 {
                assert(le(v[a], v[b - 1]));
            } else if a == j0 {
                assert(le(e@, v[b - 1]));
            } else {
                assert(le(v[a - 1], v[b - 1]));
            }
        }
        broadcast use group_to_multiset_ensures;
    }
}

/// `error_order` at two errors, as the value `error_order_fn()` applied to them.
spec fn error_order_fn_at(a: InnerErrorView, b: InnerErrorView) -> int {
    crate::error_order::error_order_fn()(a, b)
}

/// The errors sorted in the order in which they are reported (`sorted_errors`).
pub fn sort_errors(errors: Vec<InnerError>) -> (r: Vec<InnerError>)
    ensures
        errors_view(r@) == sorted_errors(errors_view(errors@)),
{
    let ghost all = errors_view(errors@);
    let mut rest = errors;
    let mut sorted: Vec<InnerError> = Vec::new();
    proof {
        broadcast use vstd::multiset::group_multiset_axioms;
        assert(errors_view(sorted@) =~= Seq::<InnerErrorView>::empty());
        broadcast use group_to_multiset_ensures;
        vstd::multiset::lemma_multiset_empty_len(errors_view(sorted@).to_multiset());
        assert(errors_view(sorted@).to_multiset() =~= Multiset::<InnerErrorView>::empty());
        assert(errors_view(sorted@).to_multiset().add(errors_view(rest@).to_multiset())
            =~= all.to_multiset());
    }
    while rest.len() > 0
        invariant
            sorted_by(errors_view(sorted@), error_le_fn()),
            errors_view(sorted@).to_multiset().add(errors_view(rest@).to_multiset())
                == all.to_multiset(),
        decreases rest.len(),
    {
        let ghost before = rest@;
        let e = rest.pop().unwrap();
        proof {
            assert(errors_view(before) =~= errors_view(rest@).push(e@));
            broadcast use group_to_multiset_ensures;
            broadcast use vstd::multiset::group_multiset_axioms;
        }
        insert_sorted(&mut sorted, e);
        proof {
            broadcast use vstd::multiset::group_multiset_axioms;
            assert(errors_view(sorted@).to_multiset().add(errors_view(rest@).to_multiset())
                =~= all.to_multiset());
        }
    }
    proof {
        lemma_error_le_total();
        all.lemma_sort_by_ensures(error_le_fn());
        assert(errors_view(rest@) =~= Seq::<InnerErrorView>::empty());
        broadcast use group_to_multiset_ensures;
        vstd::multiset::lemma_multiset_empty_len(errors_view(rest@).to_multiset());
        assert(errors_view(rest@).to_multiset() =~= Multiset::<InnerErrorView>::empty());
        broadcast use vstd::multiset::group_multiset_axioms;
        assert(errors_view(sorted@).to_multiset() =~= all.to_multiset());
        lemma_sorted_unique(errors_view(sorted@), all.sort_by(error_le_fn()), error_le_fn());
    }
    sorted
}

/// The text of several errors reported together, in the given order: the title of the first
/// error, and of every error whose title differs from the one before it, precedes the error's
/// details; every title but the first is preceded by `error: ` in the error style (`error_on`,
/// `error_off`), and details are rendered with the invalid style (`on`, `off`).
pub open spec fn spec_grouped(
    errs: Seq<InnerErrorView>,
    error_on: Seq<char>,
    error_off: Seq<char>,
    on: Seq<char>,
    off: Seq<char>,
) -> Seq<char>
    decreases errs.len(),
{
    if errs.len() == 0 {
        Seq::empty()
    } else {
        let n = errs.len() - 1;
        let e = errs[n];
        let header = if n == 0 {
            spec_title(e) + "\n"@
        } else if spec_title(errs[n - 1]) != spec_title(e) {
            error_on + "error: "@ + error_off + spec_title(e) + "\n"@
        } else {
            Seq::empty()
        };
        spec_grouped(errs.drop_last(), error_on, error_off, on, off) + header + spec_body(e, on, off)
    }
}

/// The text of errors that are already sorted (see `spec_grouped`).
pub fn render_grouped(errors: &[InnerError], error_style: &StyleCodes, invalid: &StyleCodes) -> (r: String)
    ensures
        r@ == spec_grouped(
            errors_view(errors@),
            error_style.on@,
            error_style.off@,
            invalid.on@,
            invalid.off@,
        ),
{
    let ghost all = errors_view(errors@);
    let mut out = String::new();
    let n = errors.len();
    let mut i: usize = 0;
    while i < n
        invariant
            n == errors@.len(),
            all == errors_view(errors@),
            i <= n,
            out@ == spec_grouped(
                all.take(i as int),
                error_style.on@,
                error_style.off@,
                invalid.on@,
                invalid.off@,
            ),
        decreases n - i,
    {
        let ghost before = out@;
        let e = &errors[i];
        if i == 0 {
            out.append(e.title());
            out.append("\n");
        } else if !str_eq(errors[i - 1].title(), e.title()) {
            out.append(error_style.on.as_str());
            out.append("error: ");
            out.append(error_style.off.as_str());
            out.append(e.title());
            out.append("\n");
        }
        e.print_body(&mut out, invalid);
        proof {
            let t = all.take(i + 1);
            assert(t.drop_last() =~= all.take(i as int));
            assert(t[i as int] == errors@[i as int]@);
            if i > 0 {
                assert(t[i - 1] == errors@[i - 1]@);
            }
            assert(out@ =~= spec_grouped(t, error_style.on@, error_style.off@, invalid.on@, invalid.off@));
        }
        i = i + 1;
    }
    assert(all.take(n as int) =~= all);
    out
}

/// The kind and text of the error reported for a non-empty list of errors. A single error is
/// reported alone (`spec_solo`); several are sorted (`sorted_errors`) and reported together
/// (`spec_grouped`) under the kind of the last one.
pub fn report_errors(errors: Vec<InnerError>, error_style: &StyleCodes, invalid: &StyleCodes) -> (r: (ErrorKind, String))
    requires
        errors.len() > 0,
    ensures
        errors.len() == 1 ==> r.0 == spec_error_kind(errors@[0]@) && r.1@ == spec_solo(
            errors@[0]@,
            invalid.on@,
            invalid.off@,
        ),
        errors.len() > 1 ==> r.0 == spec_error_kind(sorted_errors(errors_view(errors@)).last())
            && r.1@ == spec_grouped(
            sorted_errors(errors_view(errors@)),
            error_style.on@,
            error_style.off@,
            invalid.on@,
            invalid.off@,
        ),
{
    if errors.len() == 1 {
        let mut out = String::new();
        errors[0].print_solo(&mut out, invalid);
        return (errors[0].error_kind(), out);
    }
    let ghost all = errors_view(errors@);
    let n = errors.len();
    let sorted = sort_errors(errors);
    proof {
        lemma_error_le_total();
        all.lemma_sort_by_ensures(error_le_fn());
        broadcast use group_to_multiset_ensures;
        assert(all.len() == all.to_multiset().len());
        assert(sorted_errors(all).len() == sorted_errors(all).to_multiset().len());
    }
    let kind = sorted[n - 1].error_kind();
    let text = render_grouped(sorted.as_slice(), error_style, invalid);
    (kind, text)
}

} // verus!
