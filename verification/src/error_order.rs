//! The order in which collected errors are reported. Errors are ordered as the derived `Ord`
//! of their types orders them: by kind first (in declaration order), then field by field in
//! declaration order; strings, lists and byte strings lexicographically, `None` before `Some`,
//! `false` before `true`.
//!
//! Each order is a spec function returning a negative number, zero, or a positive number, and
//! comes with a proof that it is a total order on the values it compares.
use vstd::prelude::*;
use crate::conf_context::ConfValueSource;
use crate::error::{DebugInfoView, InnerErrorView};
use crate::program_option::{ParseType, ProgramOptionView};

verus! {

/// A three-way comparison of some part of the values: swapping the arguments flips the sign,
/// and "not after" is transitive.
pub open spec fn preorder<A>(f: spec_fn(A, A) -> int) -> bool {
    &&& forall|x: A, y: A| #[trigger] f(x, y) == -f(y, x)
    &&& forall|x: A, y: A, z: A| #[trigger] f(x, y) <= 0 && #[trigger] f(y, z) <= 0 ==> f(x, z) <= 0
}

/// What makes a three-way comparison a total order: a preorder under which only equal values
/// compare equal.
pub open spec fn total_order<A>(f: spec_fn(A, A) -> int) -> bool {
    &&& preorder(f)
    &&& forall|x: A, y: A| #[trigger] f(x, y) == 0 ==> x == y
}

/// Under a total order, values that compare equal are equal.
pub proof fn lemma_total_order_zero<A>(f: spec_fn(A, A) -> int, x: A, y: A)
    requires
        total_order(f),
        f(x, y) == 0,
    ensures
        x == y,
{
}

/// Comparing one part of the values, by a total order of the parts, is a preorder.
pub proof fn lemma_project_preorder<A, B>(
    k: spec_fn(B, B) -> int,
    p: spec_fn(A) -> B,
    f: spec_fn(A, A) -> int,
)
    requires
        total_order(k),
        forall|x: A, y: A| #[trigger] f(x, y) == k(p(x), p(y)),
    ensures
        preorder(f),
{
    assert forall|x: A, y: A| #[trigger] f(x, y) == -f(y, x) by {
        assert(k(p(x), p(y)) == -k(p(y), p(x)));
    }
    assert forall|x: A, y: A, z: A| #[trigger] f(x, y) <= 0 && #[trigger] f(y, z) <= 0 implies f(
        x,
        z,
    ) <= 0 by {
        assert(k(p(x), p(y)) <= 0 && k(p(y), p(z)) <= 0);
    }
}

/// Comparing by `f`, and by `g` where `f` finds no difference, is a preorder.
pub proof fn lemma_then_preorder<A>(
    f: spec_fn(A, A) -> int,
    g: spec_fn(A, A) -> int,
    h: spec_fn(A, A) -> int,
)
    requires
        preorder(f),
        preorder(g),
        forall|x: A, y: A| #[trigger] h(x, y) == then_order(f(x, y), g(x, y)),
    ensures
        preorder(h),
{
    assert forall|x: A, y: A| #[trigger] h(x, y) == -h(y, x) by {
        assert(f(x, y) == -f(y, x));
        assert(g(x, y) == -g(y, x));
    }
    assert forall|x: A, y: A, z: A| #[trigger] h(x, y) <= 0 && #[trigger] h(y, z) <= 0 implies h(
        x,
        z,
    ) <= 0 by {
        assert(f(x, y) == -f(y, x));
        assert(f(y, z) == -f(z, y));
        assert(f(x, z) == -f(z, x));
        if f(x, y) <= 0 && f(y, z) <= 0 {
            assert(f(x, z) <= 0);
        }
        if f(z, y) <= 0 && f(y, x) <= 0 {
            assert(f(z, x) <= 0);
        }
        if f(y, z) <= 0 && f(z, x) <= 0 {
            assert(f(y, x) <= 0);
        }
        if f(z, x) <= 0 && f(x, y) <= 0 {
            assert(f(z, y) <= 0);
        }
        if f(x, y) == 0 && f(y, z) == 0 {
            assert(g(x, y) <= 0 && g(y, z) <= 0);
        }
    }
}

/// A preorder under which only equal values compare equal is a total order.
pub proof fn lemma_preorder_total<A>(f: spec_fn(A, A) -> int)
    requires
        preorder(f),
        forall|x: A, y: A| #[trigger] f(x, y) == 0 ==> x == y,
    ensures
        total_order(f),
{
}

/// The result of comparing a first component, or of the rest where the first ones are equal.
pub open spec fn then_order(first: int, rest: int) -> int {
    if first != 0 {
        first
    } else {
        rest
    }
}

/// The lexicographic comparison of `a` and `b` from position `i` on: the first position at
/// which they differ decides, and a sequence that ends first comes first.
pub open spec fn seq_order_from<A>(a: Seq<A>, b: Seq<A>, f: spec_fn(A, A) -> int, i: int) -> int
    decreases a.len() - i,
{
    if i >= a.len() {
        if i >= b.len() {
            0
        } else {
            -1
        }
    } else if i >= b.len() {
        1
    } else if f(a[i], b[i]) != 0 {
        f(a[i], b[i])
    } else {
        seq_order_from(a, b, f, i + 1)
    }
}

/// The lexicographic comparison of two sequences.
pub open spec fn seq_order<A>(a: Seq<A>, b: Seq<A>, f: spec_fn(A, A) -> int) -> int {
    seq_order_from(a, b, f, 0)
}

/// `None` before `Some`; two `Some` by their contents.
pub open spec fn option_order<A>(a: Option<A>, b: Option<A>, f: spec_fn(A, A) -> int) -> int {
    match (a, b) {
        (None, None) => 0,
        (None, Some(_)) => -1,
        (Some(_), None) => 1,
        (Some(x), Some(y)) => f(x, y),
    }
}

proof fn lemma_seq_order_from_symmetric<A>(a: Seq<A>, b: Seq<A>, f: spec_fn(A, A) -> int, i: int)
    requires
        total_order(f),
        0 <= i,
    ensures
        seq_order_from(a, b, f, i) == -seq_order_from(b, a, f, i),
    decreases a.len() - i,
{
    if i < a.len() && i < b.len() {
        assert(f(a[i], b[i]) == -f(b[i], a[i]));
        if f(a[i], b[i]) == 0 {
            lemma_seq_order_from_symmetric(a, b, f, i + 1);
        }
    }
}

proof fn lemma_seq_order_from_zero<A>(a: Seq<A>, b: Seq<A>, f: spec_fn(A, A) -> int, i: int)
    requires
        total_order(f),
        0 <= i <= a.len(),
        i <= b.len(),
        seq_order_from(a, b, f, i) == 0,
    ensures
        a.len() == b.len(),
        forall|j: int| i <= j < a.len() ==> a[j] == b[j],
    decreases a.len() - i,
{
    if i < a.len() && i < b.len() {
        assert(f(a[i], b[i]) == 0);
        lemma_seq_order_from_zero(a, b, f, i + 1);
    }
}

proof fn lemma_seq_order_from_transitive<A>(
    a: Seq<A>,
    b: Seq<A>,
    c: Seq<A>,
    f: spec_fn(A, A) -> int,
    i: int,
)
    requires
        total_order(f),
        0 <= i,
        seq_order_from(a, b, f, i) <= 0,
        seq_order_from(b, c, f, i) <= 0,
    ensures
        seq_order_from(a, c, f, i) <= 0,
    decreases a.len() - i,
{
    if i < a.len() && i < b.len() && i < c.len() {
        let ab = f(a[i], b[i]);
        let bc = f(b[i], c[i]);
        let ac = f(a[i], c[i]);
        assert(ab == -f(b[i], a[i]));
        assert(bc == -f(c[i], b[i]));
        assert(ac == -f(c[i], a[i]));
        if ab == 0 {
            assert(a[i] == b[i]);
            if bc == 0 {
                assert(b[i] == c[i]);
                lemma_seq_order_from_transitive(a, b, c, f, i + 1);
            }
        } else if bc == 0 {
            assert(b[i] == c[i]);
        } else {
            assert(ac <= 0);
            if ac == 0 {
                assert(a[i] == c[i]);
            }
        }
    }
}

/// The lexicographic order of sequences is a total order when the order of their items is.
pub proof fn lemma_seq_order_total<A>(f: spec_fn(A, A) -> int, g: spec_fn(Seq<A>, Seq<A>) -> int)
    requires
        total_order(f),
        forall|a: Seq<A>, b: Seq<A>| #[trigger] g(a, b) == seq_order(a, b, f),
    ensures
        total_order(g),
{
    assert forall|x: Seq<A>, y: Seq<A>| #[trigger] g(x, y) == -g(y, x) by {
        lemma_seq_order_from_symmetric(x, y, f, 0);
    }
    assert forall|x: Seq<A>, y: Seq<A>| #[trigger] g(x, y) == 0 implies x == y by {
        lemma_seq_order_from_zero(x, y, f, 0);
        assert(x =~= y);
    }
    assert forall|x: Seq<A>, y: Seq<A>, z: Seq<A>|
        #[trigger] g(x, y) <= 0 && #[trigger] g(y, z) <= 0 implies g(x, z) <= 0 by {
        lemma_seq_order_from_transitive(x, y, z, f, 0);
    }
}

/// `None` before `Some` is a total order when the order of the contents is.
pub proof fn lemma_option_order_total<A>(
    f: spec_fn(A, A) -> int,
    g: spec_fn(Option<A>, Option<A>) -> int,
)
    requires
        total_order(f),
        forall|a: Option<A>, b: Option<A>| #[trigger] g(a, b) == option_order(a, b, f),
    ensures
        total_order(g),
{
    assert forall|x: Option<A>, y: Option<A>| #[trigger] g(x, y) == -g(y, x) by {
        if x is Some && y is Some {
            assert(f(x->0, y->0) == -f(y->0, x->0));
        }
    }
    assert forall|x: Option<A>, y: Option<A>| #[trigger] g(x, y) == 0 implies x == y by {
        if x is Some && y is Some {
            assert(f(x->0, y->0) == 0);
        }
    }
    assert forall|x: Option<A>, y: Option<A>, z: Option<A>|
        #[trigger] g(x, y) <= 0 && #[trigger] g(y, z) <= 0 implies g(x, z) <= 0 by {
        if x is Some && y is Some && z is Some {
            assert(f(x->0, y->0) <= 0 && f(y->0, z->0) <= 0);
        }
    }
}

/// The order of integers.
pub open spec fn int_order(a: int, b: int) -> int {
    if a < b {
        -1
    } else if a == b {
        0
    } else {
        1
    }
}

/// Characters by code point (the order of their UTF-8 encodings too).
pub open spec fn char_order(a: char, b: char) -> int {
    int_order(a as int, b as int)
}

/// Bytes by value.
pub open spec fn byte_order(a: u8, b: u8) -> int {
    int_order(a as int, b as int)
}

/// `false` before `true`.
pub open spec fn bool_order(a: bool, b: bool) -> int {
    if a == b {
        0
    } else if !a {
        -1
    } else {
        1
    }
}

/// The position of a parse type in its declaration.
pub open spec fn parse_type_index(t: ParseType) -> int {
    match t {
        ParseType::Flag => 0,
        ParseType::Parameter => 1,
        ParseType::Repeat => 2,
    }
}

/// Parse types in declaration order.
pub open spec fn parse_type_order(a: ParseType, b: ParseType) -> int {
    int_order(parse_type_index(a), parse_type_index(b))
}

/// Strings, lexicographically by character.
pub open spec fn chars_order(a: Seq<char>, b: Seq<char>) -> int {
    seq_order(a, b, char_order_fn())
}

/// Byte strings, lexicographically.
pub open spec fn bytes_order(a: Seq<u8>, b: Seq<u8>) -> int {
    seq_order(a, b, byte_order_fn())
}

/// Lists of strings, lexicographically.
pub open spec fn strs_order(a: Seq<Seq<char>>, b: Seq<Seq<char>>) -> int {
    seq_order(a, b, chars_order_fn())
}

/// Optional strings.
pub open spec fn opt_chars_order(a: Option<Seq<char>>, b: Option<Seq<char>>) -> int {
    option_order(a, b, chars_order_fn())
}

/// Optional characters.
pub open spec fn opt_char_order(a: Option<char>, b: Option<char>) -> int {
    option_order(a, b, char_order_fn())
}

/// Optional booleans.
pub open spec fn opt_bool_order(a: Option<bool>, b: Option<bool>) -> int {
    option_order(a, b, bool_order_fn())
}

/// Optional byte strings.
pub open spec fn opt_bytes_order(a: Option<Seq<u8>>, b: Option<Seq<u8>>) -> int {
    option_order(a, b, bytes_order_fn())
}

/// `char_order` as a value.
pub open spec fn char_order_fn() -> spec_fn(char, char) -> int {
    |a: char, b: char| char_order(a, b)
}

/// `byte_order` as a value.
pub open spec fn byte_order_fn() -> spec_fn(u8, u8) -> int {
    |a: u8, b: u8| byte_order(a, b)
}

/// `bool_order` as a value.
pub open spec fn bool_order_fn() -> spec_fn(bool, bool) -> int {
    |a: bool, b: bool| bool_order(a, b)
}

/// `parse_type_order` as a value.
pub open spec fn parse_type_order_fn() -> spec_fn(ParseType, ParseType) -> int {
    |a: ParseType, b: ParseType| parse_type_order(a, b)
}

/// `chars_order` as a value.
pub open spec fn chars_order_fn() -> spec_fn(Seq<char>, Seq<char>) -> int {
    |a: Seq<char>, b: Seq<char>| chars_order(a, b)
}

/// `bytes_order` as a value.
pub open spec fn bytes_order_fn() -> spec_fn(Seq<u8>, Seq<u8>) -> int {
    |a: Seq<u8>, b: Seq<u8>| bytes_order(a, b)
}

/// `strs_order` as a value.
pub open spec fn strs_order_fn() -> spec_fn(Seq<Seq<char>>, Seq<Seq<char>>) -> int {
    |a: Seq<Seq<char>>, b: Seq<Seq<char>>| strs_order(a, b)
}

/// `opt_chars_order` as a value.
pub open spec fn opt_chars_order_fn() -> spec_fn(Option<Seq<char>>, Option<Seq<char>>) -> int {
    |a: Option<Seq<char>>, b: Option<Seq<char>>| opt_chars_order(a, b)
}

/// `opt_char_order` as a value.
pub open spec fn opt_char_order_fn() -> spec_fn(Option<char>, Option<char>) -> int {
    |a: Option<char>, b: Option<char>| opt_char_order(a, b)
}

/// `opt_bool_order` as a value.
pub open spec fn opt_bool_order_fn() -> spec_fn(Option<bool>, Option<bool>) -> int {
    |a: Option<bool>, b: Option<bool>| opt_bool_order(a, b)
}

/// `opt_bytes_order` as a value.
pub open spec fn opt_bytes_order_fn() -> spec_fn(Option<Seq<u8>>, Option<Seq<u8>>) -> int {
    |a: Option<Seq<u8>>, b: Option<Seq<u8>>| opt_bytes_order(a, b)
}

/// The orders of characters, bytes, booleans and parse types are total.
pub proof fn lemma_scalar_orders_total()
    ensures
        total_order(char_order_fn()),
        total_order(byte_order_fn()),
        total_order(bool_order_fn()),
        total_order(parse_type_order_fn()),
{
}

/// The orders of strings, byte strings, lists of strings and optional values are total.
pub proof fn lemma_string_orders_total()
    ensures
        total_order(chars_order_fn()),
        total_order(bytes_order_fn()),
        total_order(strs_order_fn()),
        total_order(opt_chars_order_fn()),
        total_order(opt_char_order_fn()),
        total_order(opt_bool_order_fn()),
        total_order(opt_bytes_order_fn()),
{
    lemma_scalar_orders_total();
    lemma_seq_order_total(char_order_fn(), chars_order_fn());
    lemma_seq_order_total(byte_order_fn(), bytes_order_fn());
    lemma_seq_order_total(chars_order_fn(), strs_order_fn());
    lemma_option_order_total(chars_order_fn(), opt_chars_order_fn());
    lemma_option_order_total(char_order_fn(), opt_char_order_fn());
    lemma_option_order_total(bool_order_fn(), opt_bool_order_fn());
    lemma_option_order_total(bytes_order_fn(), opt_bytes_order_fn());
}

/// Comparing one part of the values by a total order, and by `g` where the parts are equal,
/// is a preorder.
pub proof fn lemma_field_then<A, B>(
    k: spec_fn(B, B) -> int,
    p: spec_fn(A) -> B,
    g: spec_fn(A, A) -> int,
    h: spec_fn(A, A) -> int,
)
    requires
        total_order(k),
        preorder(g),
        forall|x: A, y: A| #[trigger] h(x, y) == then_order(k(p(x), p(y)), g(x, y)),
    ensures
        preorder(h),
{
    let f = |x: A, y: A| k(p(x), p(y));
    lemma_project_preorder(k, p, f);
    lemma_then_preorder(f, g, h);
}

/// Program options, field by field in declaration order.
pub open spec fn option_view_order(a: ProgramOptionView, b: ProgramOptionView) -> int {
    then_order(
        chars_order(a.id, b.id),
        then_order(
            parse_type_order(a.parse_type, b.parse_type),
            then_order(
                opt_chars_order(a.description, b.description),
                then_order(
                    opt_char_order(a.short_form, b.short_form),
                    then_order(
                        opt_chars_order(a.long_form, b.long_form),
                        then_order(
                            strs_order(a.aliases, b.aliases),
                            then_order(
                                opt_chars_order(a.env_form, b.env_form),
                                option_view_order_rest(a, b),
                            ),
                        ),
                    ),
                ),
            ),
        ),
    )
}

/// Program options from the env aliases on.
pub open spec fn option_view_order_rest(a: ProgramOptionView, b: ProgramOptionView) -> int {
    then_order(
        strs_order(a.env_aliases, b.env_aliases),
        then_order(
            opt_chars_order(a.default_value, b.default_value),
            then_order(
                opt_chars_order(a.default_help_str, b.default_help_str),
                then_order(
                    bool_order(a.is_required, b.is_required),
                    then_order(
                        bool_order(a.allow_hyphen_values, b.allow_hyphen_values),
                        then_order(
                            opt_bool_order(a.secret, b.secret),
                            then_order(
                                bool_order(a.is_positional, b.is_positional),
                                bool_order(a.has_serde_source, b.has_serde_source),
                            ),
                        ),
                    ),
                ),
            ),
        ),
    )
}

/// `option_view_order` as a value.
pub open spec fn option_view_order_fn() -> spec_fn(ProgramOptionView, ProgramOptionView) -> int {
    |a: ProgramOptionView, b: ProgramOptionView| option_view_order(a, b)
}

proof fn lemma_option_view_rest_preorder()
    ensures
        preorder(|a: ProgramOptionView, b: ProgramOptionView| option_view_order_rest(a, b)),
{
    lemma_scalar_orders_total();
    lemma_string_orders_total();
    let h7 = |a: ProgramOptionView, b: ProgramOptionView|
        bool_order(a.has_serde_source, b.has_serde_source);
    lemma_project_preorder(bool_order_fn(), |a: ProgramOptionView| a.has_serde_source, h7);
    let h6 = |a: ProgramOptionView, b: ProgramOptionView|
        then_order(bool_order(a.is_positional, b.is_positional), h7(a, b));
    lemma_field_then(bool_order_fn(), |a: ProgramOptionView| a.is_positional, h7, h6);
    let h5 = |a: ProgramOptionView, b: ProgramOptionView|
        then_order(opt_bool_order(a.secret, b.secret), h6(a, b));
    lemma_field_then(opt_bool_order_fn(), |a: ProgramOptionView| a.secret, h6, h5);
    let h4 = |a: ProgramOptionView, b: ProgramOptionView|
        then_order(bool_order(a.allow_hyphen_values, b.allow_hyphen_values), h5(a, b));
    lemma_field_then(bool_order_fn(), |a: ProgramOptionView| a.allow_hyphen_values, h5, h4);
    let h3 = |a: ProgramOptionView, b: ProgramOptionView|
        then_order(bool_order(a.is_required, b.is_required), h4(a, b));
    lemma_field_then(bool_order_fn(), |a: ProgramOptionView| a.is_required, h4, h3);
    let hd = |a: ProgramOptionView, b: ProgramOptionView|
        then_order(opt_chars_order(a.default_help_str, b.default_help_str), h3(a, b));
    lemma_field_then(opt_chars_order_fn(), |a: ProgramOptionView| a.default_help_str, h3, hd);
    let h2 = |a: ProgramOptionView, b: ProgramOptionView|
        then_order(opt_chars_order(a.default_value, b.default_value), hd(a, b));
    lemma_field_then(opt_chars_order_fn(), |a: ProgramOptionView| a.default_value, hd, h2);
    let h1 = |a: ProgramOptionView, b: ProgramOptionView|
        then_order(strs_order(a.env_aliases, b.env_aliases), h2(a, b));
    lemma_field_then(strs_order_fn(), |a: ProgramOptionView| a.env_aliases, h2, h1);
    let r = |a: ProgramOptionView, b: ProgramOptionView| option_view_order_rest(a, b);
    assert forall|x: ProgramOptionView, y: ProgramOptionView| #[trigger] r(x, y) == h1(x, y) by {}
}

/// The order of program options is total.
pub proof fn lemma_option_view_order_total()
    ensures
        total_order(option_view_order_fn()),
{
    lemma_scalar_orders_total();
    lemma_string_orders_total();
    lemma_option_view_rest_preorder();
    let h8 = |a: ProgramOptionView, b: ProgramOptionView| option_view_order_rest(a, b);
    let h7 = |a: ProgramOptionView, b: ProgramOptionView|
        then_order(opt_chars_order(a.env_form, b.env_form), h8(a, b));
    lemma_field_then(opt_chars_order_fn(), |a: ProgramOptionView| a.env_form, h8, h7);
    let h6 = |a: ProgramOptionView, b: ProgramOptionView|
        then_order(strs_order(a.aliases, b.aliases), h7(a, b));
    lemma_field_then(strs_order_fn(), |a: ProgramOptionView| a.aliases, h7, h6);
    let h5 = |a: ProgramOptionView, b: ProgramOptionView|
        then_order(opt_chars_order(a.long_form, b.long_form), h6(a, b));
    lemma_field_then(opt_chars_order_fn(), |a: ProgramOptionView| a.long_form, h6, h5);
    let h4 = |a: ProgramOptionView, b: ProgramOptionView|
        then_order(opt_char_order(a.short_form, b.short_form), h5(a, b));
    lemma_field_then(opt_char_order_fn(), |a: ProgramOptionView| a.short_form, h5, h4);
    let h3 = |a: ProgramOptionView, b: ProgramOptionView|
        then_order(opt_chars_order(a.description, b.description), h4(a, b));
    lemma_field_then(opt_chars_order_fn(), |a: ProgramOptionView| a.description, h4, h3);
    let h2 = |a: ProgramOptionView, b: ProgramOptionView|
        then_order(parse_type_order(a.parse_type, b.parse_type), h3(a, b));
    lemma_field_then(parse_type_order_fn(), |a: ProgramOptionView| a.parse_type, h3, h2);
    let h1 = |a: ProgramOptionView, b: ProgramOptionView|
        then_order(chars_order(a.id, b.id), h2(a, b));
    lemma_field_then(chars_order_fn(), |a: ProgramOptionView| a.id, h2, h1);
    let f = option_view_order_fn();
    assert forall|x: ProgramOptionView, y: ProgramOptionView| #[trigger] f(x, y) == h1(x, y) by {}
    assert forall|x: ProgramOptionView, y: ProgramOptionView| #[trigger] f(x, y) == 0 implies x
        == y by {
        lemma_total_order_zero(chars_order_fn(), x.id, y.id);
        lemma_total_order_zero(strs_order_fn(), x.aliases, y.aliases);
        lemma_total_order_zero(strs_order_fn(), x.env_aliases, y.env_aliases);
        lemma_total_order_zero(opt_chars_order_fn(), x.description, y.description);
        lemma_total_order_zero(opt_chars_order_fn(), x.long_form, y.long_form);
        lemma_total_order_zero(opt_chars_order_fn(), x.env_form, y.env_form);
        lemma_total_order_zero(opt_chars_order_fn(), x.default_value, y.default_value);
        lemma_total_order_zero(opt_chars_order_fn(), x.default_help_str, y.default_help_str);
        lemma_total_order_zero(opt_char_order_fn(), x.short_form, y.short_form);
        lemma_total_order_zero(opt_bool_order_fn(), x.secret, y.secret);
    }
    lemma_preorder_total(f);
}

/// The position of a value source in its declaration.
pub open spec fn source_index(s: ConfValueSource<Seq<char>>) -> int {
    match s {
        ConfValueSource::Args => 0,
        ConfValueSource::Env(_) => 1,
        ConfValueSource::Document(_) => 2,
        ConfValueSource::Default => 3,
    }
}

/// Value sources in declaration order; two env vars, or two documents, by name.
pub open spec fn source_order(a: ConfValueSource<Seq<char>>, b: ConfValueSource<Seq<char>>) -> int {
    match (a, b) {
        (ConfValueSource::Env(x), ConfValueSource::Env(y)) => chars_order(x, y),
        (ConfValueSource::Document(x), ConfValueSource::Document(y)) => chars_order(x, y),
        _ => int_order(source_index(a), source_index(b)),
    }
}

/// `source_order` as a value.
pub open spec fn source_order_fn() -> spec_fn(ConfValueSource<Seq<char>>, ConfValueSource<Seq<char>>) -> int {
    |a: ConfValueSource<Seq<char>>, b: ConfValueSource<Seq<char>>| source_order(a, b)
}

/// The name held by an env or document source.
pub open spec fn source_name(s: ConfValueSource<Seq<char>>) -> Seq<char> {
    match s {
        ConfValueSource::Env(n) => n,
        ConfValueSource::Document(n) => n,
        _ => Seq::empty(),
    }
}

/// The order of value sources is total.
pub proof fn lemma_source_order_total()
    ensures
        total_order(source_order_fn()),
{
    lemma_string_orders_total();
    let f = source_order_fn();
    let c = chars_order_fn();
    assert forall|x: ConfValueSource<Seq<char>>, y: ConfValueSource<Seq<char>>| #[trigger] f(x, y)
        == -f(y, x) by {
        assert(c(source_name(x), source_name(y)) == -c(source_name(y), source_name(x)));
    }
    assert forall|x: ConfValueSource<Seq<char>>, y: ConfValueSource<Seq<char>>| #[trigger] f(x, y)
        == 0 implies x == y by {
        if source_index(x) == source_index(y) && (source_index(x) == 1 || source_index(x) == 2) {
            lemma_total_order_zero(c, source_name(x), source_name(y));
        }
    }
    assert forall|
        x: ConfValueSource<Seq<char>>,
        y: ConfValueSource<Seq<char>>,
        z: ConfValueSource<Seq<char>>,
    | #[trigger] f(x, y) <= 0 && #[trigger] f(y, z) <= 0 implies f(x, z) <= 0 by {
        assert(c(source_name(x), source_name(y)) <= 0 && c(source_name(y), source_name(z)) <= 0
            ==> c(source_name(x), source_name(z)) <= 0);
    }
}

/// Debug information, field by field in declaration order.
pub open spec fn debug_info_order(a: DebugInfoView, b: DebugInfoView) -> int {
    then_order(
        chars_order(a.struct_name, b.struct_name),
        then_order(
            chars_order(a.id_prefix, b.id_prefix),
            then_order(
                option_view_order(a.option_appeared, b.option_appeared),
                source_order(a.value_source, b.value_source),
            ),
        ),
    )
}

/// `debug_info_order` as a value.
pub open spec fn debug_info_order_fn() -> spec_fn(DebugInfoView, DebugInfoView) -> int {
    |a: DebugInfoView, b: DebugInfoView| debug_info_order(a, b)
}

/// Optional debug information.
pub open spec fn opt_debug_info_order(a: Option<DebugInfoView>, b: Option<DebugInfoView>) -> int {
    option_order(a, b, debug_info_order_fn())
}

/// `opt_debug_info_order` as a value.
pub open spec fn opt_debug_info_order_fn() -> spec_fn(Option<DebugInfoView>, Option<DebugInfoView>) -> int {
    |a: Option<DebugInfoView>, b: Option<DebugInfoView>| opt_debug_info_order(a, b)
}

/// The orders of debug information, and of optional debug information, are total.
pub proof fn lemma_debug_info_order_total()
    ensures
        total_order(debug_info_order_fn()),
        total_order(opt_debug_info_order_fn()),
{
    lemma_string_orders_total();
    lemma_option_view_order_total();
    lemma_source_order_total();
    let h4 = |a: DebugInfoView, b: DebugInfoView| source_order(a.value_source, b.value_source);
    lemma_project_preorder(source_order_fn(), |a: DebugInfoView| a.value_source, h4);
    let h3 = |a: DebugInfoView, b: DebugInfoView|
        then_order(option_view_order(a.option_appeared, b.option_appeared), h4(a, b));
    lemma_field_then(option_view_order_fn(), |a: DebugInfoView| a.option_appeared, h4, h3);
    let h2 = |a: DebugInfoView, b: DebugInfoView|
        then_order(chars_order(a.id_prefix, b.id_prefix), h3(a, b));
    lemma_field_then(chars_order_fn(), |a: DebugInfoView| a.id_prefix, h3, h2);
    let h1 = |a: DebugInfoView, b: DebugInfoView|
        then_order(chars_order(a.struct_name, b.struct_name), h2(a, b));
    lemma_field_then(chars_order_fn(), |a: DebugInfoView| a.struct_name, h2, h1);
    let f = debug_info_order_fn();
    assert forall|x: DebugInfoView, y: DebugInfoView| #[trigger] f(x, y) == h1(x, y) by {}
    assert forall|x: DebugInfoView, y: DebugInfoView| #[trigger] f(x, y) == 0 implies x == y by {
        lemma_total_order_zero(chars_order_fn(), x.struct_name, y.struct_name);
        lemma_total_order_zero(chars_order_fn(), x.id_prefix, y.id_prefix);
        lemma_total_order_zero(option_view_order_fn(), x.option_appeared, y.option_appeared);
        lemma_total_order_zero(source_order_fn(), x.value_source, y.value_source);
    }
    lemma_preorder_total(f);
    lemma_option_order_total(f, opt_debug_info_order_fn());
}

/// Lists of program options, lexicographically.
pub open spec fn options_order(a: Seq<ProgramOptionView>, b: Seq<ProgramOptionView>) -> int {
    seq_order(a, b, option_view_order_fn())
}

/// `options_order` as a value.
pub open spec fn options_order_fn() -> spec_fn(Seq<ProgramOptionView>, Seq<ProgramOptionView>) -> int {
    |a: Seq<ProgramOptionView>, b: Seq<ProgramOptionView>| options_order(a, b)
}

/// An option that appeared, with its source: by option, then by source.
pub open spec fn appeared_order(a: (ProgramOptionView, ConfValueSource<Seq<char>>), b: (ProgramOptionView, ConfValueSource<Seq<char>>)) -> int {
    then_order(option_view_order(a.0, b.0), source_order(a.1, b.1))
}

/// `appeared_order` as a value.
pub open spec fn appeared_order_fn() -> spec_fn((ProgramOptionView, ConfValueSource<Seq<char>>), (ProgramOptionView, ConfValueSource<Seq<char>>)) -> int {
    |a: (ProgramOptionView, ConfValueSource<Seq<char>>), b: (ProgramOptionView, ConfValueSource<Seq<char>>)| appeared_order(a, b)
}

/// Lists of options that appeared, lexicographically.
pub open spec fn appeared_list_order(a: Seq<(ProgramOptionView, ConfValueSource<Seq<char>>)>, b: Seq<(ProgramOptionView, ConfValueSource<Seq<char>>)>) -> int {
    seq_order(a, b, appeared_order_fn())
}

/// `appeared_list_order` as a value.
pub open spec fn appeared_list_order_fn() -> spec_fn(Seq<(ProgramOptionView, ConfValueSource<Seq<char>>)>, Seq<(ProgramOptionView, ConfValueSource<Seq<char>>)>) -> int {
    |a: Seq<(ProgramOptionView, ConfValueSource<Seq<char>>)>, b: Seq<(ProgramOptionView, ConfValueSource<Seq<char>>)>| appeared_list_order(a, b)
}

/// A flattened field with the option that appeared in it and its source: by field name,
/// then option, then source.
pub open spec fn field_appeared_order(
    a: (Seq<char>, ProgramOptionView, ConfValueSource<Seq<char>>),
    b: (Seq<char>, ProgramOptionView, ConfValueSource<Seq<char>>),
) -> int {
    then_order(
        chars_order(a.0, b.0),
        then_order(option_view_order(a.1, b.1), source_order(a.2, b.2)),
    )
}

/// `field_appeared_order` as a value.
pub open spec fn field_appeared_order_fn() -> spec_fn(
    (Seq<char>, ProgramOptionView, ConfValueSource<Seq<char>>),
    (Seq<char>, ProgramOptionView, ConfValueSource<Seq<char>>),
) -> int {
    |a: (Seq<char>, ProgramOptionView, ConfValueSource<Seq<char>>), b: (Seq<char>, ProgramOptionView, ConfValueSource<Seq<char>>)| field_appeared_order(a, b)
}

/// Lists of flattened fields that appeared, lexicographically.
pub open spec fn field_appeared_list_order(
    a: Seq<(Seq<char>, ProgramOptionView, ConfValueSource<Seq<char>>)>,
    b: Seq<(Seq<char>, ProgramOptionView, ConfValueSource<Seq<char>>)>,
) -> int {
    seq_order(a, b, field_appeared_order_fn())
}

/// `field_appeared_list_order` as a value.
pub open spec fn field_appeared_list_order_fn() -> spec_fn(
    Seq<(Seq<char>, ProgramOptionView, ConfValueSource<Seq<char>>)>,
    Seq<(Seq<char>, ProgramOptionView, ConfValueSource<Seq<char>>)>,
) -> int {
    |a: Seq<(Seq<char>, ProgramOptionView, ConfValueSource<Seq<char>>)>, b: Seq<(Seq<char>, ProgramOptionView, ConfValueSource<Seq<char>>)>|
        field_appeared_list_order(a, b)
}

/// The orders of lists of options, and of options that appeared, are total.
pub proof fn lemma_list_orders_total()
    ensures
        total_order(options_order_fn()),
        total_order(appeared_order_fn()),
        total_order(appeared_list_order_fn()),
        total_order(field_appeared_order_fn()),
        total_order(field_appeared_list_order_fn()),
{
    lemma_string_orders_total();
    lemma_option_view_order_total();
    lemma_source_order_total();
    lemma_seq_order_total(option_view_order_fn(), options_order_fn());

    let a2 = |a: (ProgramOptionView, ConfValueSource<Seq<char>>), b: (ProgramOptionView, ConfValueSource<Seq<char>>)| source_order(a.1, b.1);
    lemma_project_preorder(source_order_fn(), |a: (ProgramOptionView, ConfValueSource<Seq<char>>)| a.1, a2);
    let a1 = appeared_order_fn();
    lemma_field_then(option_view_order_fn(), |a: (ProgramOptionView, ConfValueSource<Seq<char>>)| a.0, a2, a1);
    assert forall|x: (ProgramOptionView, ConfValueSource<Seq<char>>), y: (ProgramOptionView, ConfValueSource<Seq<char>>)| #[trigger] a1(x, y) == 0 implies x == y by {
        lemma_total_order_zero(option_view_order_fn(), x.0, y.0);
        lemma_total_order_zero(source_order_fn(), x.1, y.1);
    }
    lemma_preorder_total(a1);
    lemma_seq_order_total(a1, appeared_list_order_fn());

    let f3 = |a: (Seq<char>, ProgramOptionView, ConfValueSource<Seq<char>>), b: (Seq<char>, ProgramOptionView, ConfValueSource<Seq<char>>)| source_order(a.2, b.2);
    lemma_project_preorder(source_order_fn(), |a: (Seq<char>, ProgramOptionView, ConfValueSource<Seq<char>>)| a.2, f3);
    let f2 = |a: (Seq<char>, ProgramOptionView, ConfValueSource<Seq<char>>), b: (Seq<char>, ProgramOptionView, ConfValueSource<Seq<char>>)|
        then_order(option_view_order(a.1, b.1), f3(a, b));
    lemma_field_then(option_view_order_fn(), |a: (Seq<char>, ProgramOptionView, ConfValueSource<Seq<char>>)| a.1, f3, f2);
    let f1 = field_appeared_order_fn();
    lemma_field_then(chars_order_fn(), |a: (Seq<char>, ProgramOptionView, ConfValueSource<Seq<char>>)| a.0, f2, f1);
    assert forall|x: (Seq<char>, ProgramOptionView, ConfValueSource<Seq<char>>), y: (Seq<char>, ProgramOptionView, ConfValueSource<Seq<char>>)| #[trigger] f1(x, y)
        == 0 implies x == y by {
        lemma_total_order_zero(chars_order_fn(), x.0, y.0);
        lemma_total_order_zero(option_view_order_fn(), x.1, y.1);
        lemma_total_order_zero(source_order_fn(), x.2, y.2);
    }
    lemma_preorder_total(f1);
    lemma_seq_order_total(f1, field_appeared_list_order_fn());
}

/// The fields of a missing-value error, in order.
pub open spec fn missing_order(a: (ProgramOptionView, Option<DebugInfoView>), b: (ProgramOptionView, Option<DebugInfoView>)) -> int {
    then_order(option_view_order(a.0, b.0), opt_debug_info_order(a.1, b.1))
}

/// The fields of an invalid-value error, in order.
pub open spec fn invalid_order(a: (ConfValueSource<Seq<char>>, Seq<char>, ProgramOptionView, Seq<char>), b: (ConfValueSource<Seq<char>>, Seq<char>, ProgramOptionView, Seq<char>)) -> int {
    then_order(
        source_order(a.0, b.0),
        then_order(
            chars_order(a.1, b.1),
            then_order(option_view_order(a.2, b.2), chars_order(a.3, b.3)),
        ),
    )
}

/// The fields of a too-few-arguments error, in order.
pub open spec fn too_few_order(a: (Seq<char>, Seq<char>, Seq<ProgramOptionView>, Seq<Seq<char>>, Option<DebugInfoView>), b: (Seq<char>, Seq<char>, Seq<ProgramOptionView>, Seq<Seq<char>>, Option<DebugInfoView>)) -> int {
    then_order(
        chars_order(a.0, b.0),
        then_order(
            chars_order(a.1, b.1),
            then_order(
                options_order(a.2, b.2),
                then_order(strs_order(a.3, b.3), opt_debug_info_order(a.4, b.4)),
            ),
        ),
    )
}

/// The fields of a too-many-arguments error, in order.
pub open spec fn too_many_order(a: (Seq<char>, Seq<char>, Seq<(ProgramOptionView, ConfValueSource<Seq<char>>)>, Seq<(Seq<char>, ProgramOptionView, ConfValueSource<Seq<char>>)>), b: (Seq<char>, Seq<char>, Seq<(ProgramOptionView, ConfValueSource<Seq<char>>)>, Seq<(Seq<char>, ProgramOptionView, ConfValueSource<Seq<char>>)>)) -> int {
    then_order(
        chars_order(a.0, b.0),
        then_order(
            chars_order(a.1, b.1),
            then_order(appeared_list_order(a.2, b.2), field_appeared_list_order(a.3, b.3)),
        ),
    )
}

/// The fields of a validation error, in order.
pub open spec fn validation_order(a: (Seq<char>, Seq<char>, Seq<char>), b: (Seq<char>, Seq<char>, Seq<char>)) -> int {
    then_order(chars_order(a.0, b.0), then_order(chars_order(a.1, b.1), chars_order(a.2, b.2)))
}

/// The fields of an invalid-UTF-8 error, in order.
pub open spec fn utf8_order(a: (Seq<char>, ProgramOptionView, Option<Seq<u8>>), b: (Seq<char>, ProgramOptionView, Option<Seq<u8>>)) -> int {
    then_order(
        chars_order(a.0, b.0),
        then_order(option_view_order(a.1, b.1), opt_bytes_order(a.2, b.2)),
    )
}

/// `missing_order` as a value.
pub open spec fn missing_order_fn() -> spec_fn((ProgramOptionView, Option<DebugInfoView>), (ProgramOptionView, Option<DebugInfoView>)) -> int {
    |a: (ProgramOptionView, Option<DebugInfoView>), b: (ProgramOptionView, Option<DebugInfoView>)| missing_order(a, b)
}

/// `invalid_order` as a value.
pub open spec fn invalid_order_fn() -> spec_fn((ConfValueSource<Seq<char>>, Seq<char>, ProgramOptionView, Seq<char>), (ConfValueSource<Seq<char>>, Seq<char>, ProgramOptionView, Seq<char>)) -> int {
    |a: (ConfValueSource<Seq<char>>, Seq<char>, ProgramOptionView, Seq<char>), b: (ConfValueSource<Seq<char>>, Seq<char>, ProgramOptionView, Seq<char>)| invalid_order(a, b)
}

/// `too_few_order` as a value.
pub open spec fn too_few_order_fn() -> spec_fn((Seq<char>, Seq<char>, Seq<ProgramOptionView>, Seq<Seq<char>>, Option<DebugInfoView>), (Seq<char>, Seq<char>, Seq<ProgramOptionView>, Seq<Seq<char>>, Option<DebugInfoView>)) -> int {
    |a: (Seq<char>, Seq<char>, Seq<ProgramOptionView>, Seq<Seq<char>>, Option<DebugInfoView>), b: (Seq<char>, Seq<char>, Seq<ProgramOptionView>, Seq<Seq<char>>, Option<DebugInfoView>)| too_few_order(a, b)
}

/// `too_many_order` as a value.
pub open spec fn too_many_order_fn() -> spec_fn((Seq<char>, Seq<char>, Seq<(ProgramOptionView, ConfValueSource<Seq<char>>)>, Seq<(Seq<char>, ProgramOptionView, ConfValueSource<Seq<char>>)>), (Seq<char>, Seq<char>, Seq<(ProgramOptionView, ConfValueSource<Seq<char>>)>, Seq<(Seq<char>, ProgramOptionView, ConfValueSource<Seq<char>>)>)) -> int {
    |a: (Seq<char>, Seq<char>, Seq<(ProgramOptionView, ConfValueSource<Seq<char>>)>, Seq<(Seq<char>, ProgramOptionView, ConfValueSource<Seq<char>>)>), b: (Seq<char>, Seq<char>, Seq<(ProgramOptionView, ConfValueSource<Seq<char>>)>, Seq<(Seq<char>, ProgramOptionView, ConfValueSource<Seq<char>>)>)| too_many_order(a, b)
}

/// `validation_order` as a value.
pub open spec fn validation_order_fn() -> spec_fn((Seq<char>, Seq<char>, Seq<char>), (Seq<char>, Seq<char>, Seq<char>)) -> int {
    |a: (Seq<char>, Seq<char>, Seq<char>), b: (Seq<char>, Seq<char>, Seq<char>)| validation_order(a, b)
}

/// `utf8_order` as a value.
pub open spec fn utf8_order_fn() -> spec_fn((Seq<char>, ProgramOptionView, Option<Seq<u8>>), (Seq<char>, ProgramOptionView, Option<Seq<u8>>)) -> int {
    |a: (Seq<char>, ProgramOptionView, Option<Seq<u8>>), b: (Seq<char>, ProgramOptionView, Option<Seq<u8>>)| utf8_order(a, b)
}

/// The orders of the fields of each kind of error are total.
pub proof fn lemma_field_orders_total()
    ensures
        total_order(missing_order_fn()),
        total_order(invalid_order_fn()),
        total_order(too_few_order_fn()),
        total_order(too_many_order_fn()),
        total_order(validation_order_fn()),
        total_order(utf8_order_fn()),
{
    lemma_string_orders_total();
    lemma_option_view_order_total();
    lemma_source_order_total();
    lemma_debug_info_order_total();
    lemma_list_orders_total();

    let m2 = |a: (ProgramOptionView, Option<DebugInfoView>), b: (ProgramOptionView, Option<DebugInfoView>)| opt_debug_info_order(a.1, b.1);
    lemma_project_preorder(opt_debug_info_order_fn(), |a: (ProgramOptionView, Option<DebugInfoView>)| a.1, m2);
    let m1 = missing_order_fn();
    lemma_field_then(option_view_order_fn(), |a: (ProgramOptionView, Option<DebugInfoView>)| a.0, m2, m1);
    assert forall|x: (ProgramOptionView, Option<DebugInfoView>), y: (ProgramOptionView, Option<DebugInfoView>)| #[trigger] m1(x, y) == 0 implies x == y by {
        lemma_total_order_zero(option_view_order_fn(), x.0, y.0);
        lemma_total_order_zero(opt_debug_info_order_fn(), x.1, y.1);
    }
    lemma_preorder_total(m1);

    let i4 = |a: (ConfValueSource<Seq<char>>, Seq<char>, ProgramOptionView, Seq<char>), b: (ConfValueSource<Seq<char>>, Seq<char>, ProgramOptionView, Seq<char>)| chars_order(a.3, b.3);
    lemma_project_preorder(chars_order_fn(), |a: (ConfValueSource<Seq<char>>, Seq<char>, ProgramOptionView, Seq<char>)| a.3, i4);
    let i3 = |a: (ConfValueSource<Seq<char>>, Seq<char>, ProgramOptionView, Seq<char>), b: (ConfValueSource<Seq<char>>, Seq<char>, ProgramOptionView, Seq<char>)| then_order(option_view_order(a.2, b.2), i4(a, b));
    lemma_field_then(option_view_order_fn(), |a: (ConfValueSource<Seq<char>>, Seq<char>, ProgramOptionView, Seq<char>)| a.2, i4, i3);
    let i2 = |a: (ConfValueSource<Seq<char>>, Seq<char>, ProgramOptionView, Seq<char>), b: (ConfValueSource<Seq<char>>, Seq<char>, ProgramOptionView, Seq<char>)| then_order(chars_order(a.1, b.1), i3(a, b));
    lemma_field_then(chars_order_fn(), |a: (ConfValueSource<Seq<char>>, Seq<char>, ProgramOptionView, Seq<char>)| a.1, i3, i2);
    let i1 = invalid_order_fn();
    lemma_field_then(source_order_fn(), |a: (ConfValueSource<Seq<char>>, Seq<char>, ProgramOptionView, Seq<char>)| a.0, i2, i1);
    assert forall|x: (ConfValueSource<Seq<char>>, Seq<char>, ProgramOptionView, Seq<char>), y: (ConfValueSource<Seq<char>>, Seq<char>, ProgramOptionView, Seq<char>)| #[trigger] i1(x, y) == 0 implies x == y by {
        lemma_total_order_zero(source_order_fn(), x.0, y.0);
        lemma_total_order_zero(chars_order_fn(), x.1, y.1);
        lemma_total_order_zero(option_view_order_fn(), x.2, y.2);
        lemma_total_order_zero(chars_order_fn(), x.3, y.3);
    }
    lemma_preorder_total(i1);

    let f5 = |a: (Seq<char>, Seq<char>, Seq<ProgramOptionView>, Seq<Seq<char>>, Option<DebugInfoView>), b: (Seq<char>, Seq<char>, Seq<ProgramOptionView>, Seq<Seq<char>>, Option<DebugInfoView>)| opt_debug_info_order(a.4, b.4);
    lemma_project_preorder(opt_debug_info_order_fn(), |a: (Seq<char>, Seq<char>, Seq<ProgramOptionView>, Seq<Seq<char>>, Option<DebugInfoView>)| a.4, f5);
    let f4 = |a: (Seq<char>, Seq<char>, Seq<ProgramOptionView>, Seq<Seq<char>>, Option<DebugInfoView>), b: (Seq<char>, Seq<char>, Seq<ProgramOptionView>, Seq<Seq<char>>, Option<DebugInfoView>)| then_order(strs_order(a.3, b.3), f5(a, b));
    lemma_field_then(strs_order_fn(), |a: (Seq<char>, Seq<char>, Seq<ProgramOptionView>, Seq<Seq<char>>, Option<DebugInfoView>)| a.3, f5, f4);
    let f3 = |a: (Seq<char>, Seq<char>, Seq<ProgramOptionView>, Seq<Seq<char>>, Option<DebugInfoView>), b: (Seq<char>, Seq<char>, Seq<ProgramOptionView>, Seq<Seq<char>>, Option<DebugInfoView>)| then_order(options_order(a.2, b.2), f4(a, b));
    lemma_field_then(options_order_fn(), |a: (Seq<char>, Seq<char>, Seq<ProgramOptionView>, Seq<Seq<char>>, Option<DebugInfoView>)| a.2, f4, f3);
    let f2 = |a: (Seq<char>, Seq<char>, Seq<ProgramOptionView>, Seq<Seq<char>>, Option<DebugInfoView>), b: (Seq<char>, Seq<char>, Seq<ProgramOptionView>, Seq<Seq<char>>, Option<DebugInfoView>)| then_order(chars_order(a.1, b.1), f3(a, b));
    lemma_field_then(chars_order_fn(), |a: (Seq<char>, Seq<char>, Seq<ProgramOptionView>, Seq<Seq<char>>, Option<DebugInfoView>)| a.1, f3, f2);
    let f1 = too_few_order_fn();
    lemma_field_then(chars_order_fn(), |a: (Seq<char>, Seq<char>, Seq<ProgramOptionView>, Seq<Seq<char>>, Option<DebugInfoView>)| a.0, f2, f1);
    assert forall|x: (Seq<char>, Seq<char>, Seq<ProgramOptionView>, Seq<Seq<char>>, Option<DebugInfoView>), y: (Seq<char>, Seq<char>, Seq<ProgramOptionView>, Seq<Seq<char>>, Option<DebugInfoView>)| #[trigger] f1(x, y) == 0 implies x == y by {
        lemma_total_order_zero(chars_order_fn(), x.0, y.0);
        lemma_total_order_zero(chars_order_fn(), x.1, y.1);
        lemma_total_order_zero(options_order_fn(), x.2, y.2);
        lemma_total_order_zero(strs_order_fn(), x.3, y.3);
        lemma_total_order_zero(opt_debug_info_order_fn(), x.4, y.4);
    }
    lemma_preorder_total(f1);

    let t4 = |a: (Seq<char>, Seq<char>, Seq<(ProgramOptionView, ConfValueSource<Seq<char>>)>, Seq<(Seq<char>, ProgramOptionView, ConfValueSource<Seq<char>>)>), b: (Seq<char>, Seq<char>, Seq<(ProgramOptionView, ConfValueSource<Seq<char>>)>, Seq<(Seq<char>, ProgramOptionView, ConfValueSource<Seq<char>>)>)| field_appeared_list_order(a.3, b.3);
    lemma_project_preorder(field_appeared_list_order_fn(), |a: (Seq<char>, Seq<char>, Seq<(ProgramOptionView, ConfValueSource<Seq<char>>)>, Seq<(Seq<char>, ProgramOptionView, ConfValueSource<Seq<char>>)>)| a.3, t4);
    let t3 = |a: (Seq<char>, Seq<char>, Seq<(ProgramOptionView, ConfValueSource<Seq<char>>)>, Seq<(Seq<char>, ProgramOptionView, ConfValueSource<Seq<char>>)>), b: (Seq<char>, Seq<char>, Seq<(ProgramOptionView, ConfValueSource<Seq<char>>)>, Seq<(Seq<char>, ProgramOptionView, ConfValueSource<Seq<char>>)>)| then_order(appeared_list_order(a.2, b.2), t4(a, b));
    lemma_field_then(appeared_list_order_fn(), |a: (Seq<char>, Seq<char>, Seq<(ProgramOptionView, ConfValueSource<Seq<char>>)>, Seq<(Seq<char>, ProgramOptionView, ConfValueSource<Seq<char>>)>)| a.2, t4, t3);
    let t2 = |a: (Seq<char>, Seq<char>, Seq<(ProgramOptionView, ConfValueSource<Seq<char>>)>, Seq<(Seq<char>, ProgramOptionView, ConfValueSource<Seq<char>>)>), b: (Seq<char>, Seq<char>, Seq<(ProgramOptionView, ConfValueSource<Seq<char>>)>, Seq<(Seq<char>, ProgramOptionView, ConfValueSource<Seq<char>>)>)| then_order(chars_order(a.1, b.1), t3(a, b));
    lemma_field_then(chars_order_fn(), |a: (Seq<char>, Seq<char>, Seq<(ProgramOptionView, ConfValueSource<Seq<char>>)>, Seq<(Seq<char>, ProgramOptionView, ConfValueSource<Seq<char>>)>)| a.1, t3, t2);
    let t1 = too_many_order_fn();
    lemma_field_then(chars_order_fn(), |a: (Seq<char>, Seq<char>, Seq<(ProgramOptionView, ConfValueSource<Seq<char>>)>, Seq<(Seq<char>, ProgramOptionView, ConfValueSource<Seq<char>>)>)| a.0, t2, t1);
    assert forall|x: (Seq<char>, Seq<char>, Seq<(ProgramOptionView, ConfValueSource<Seq<char>>)>, Seq<(Seq<char>, ProgramOptionView, ConfValueSource<Seq<char>>)>), y: (Seq<char>, Seq<char>, Seq<(ProgramOptionView, ConfValueSource<Seq<char>>)>, Seq<(Seq<char>, ProgramOptionView, ConfValueSource<Seq<char>>)>)| #[trigger] t1(x, y) == 0 implies x == y by {
        lemma_total_order_zero(chars_order_fn(), x.0, y.0);
        lemma_total_order_zero(chars_order_fn(), x.1, y.1);
        lemma_total_order_zero(appeared_list_order_fn(), x.2, y.2);
        lemma_total_order_zero(field_appeared_list_order_fn(), x.3, y.3);
    }
    lemma_preorder_total(t1);

    let v3 = |a: (Seq<char>, Seq<char>, Seq<char>), b: (Seq<char>, Seq<char>, Seq<char>)| chars_order(a.2, b.2);
    lemma_project_preorder(chars_order_fn(), |a: (Seq<char>, Seq<char>, Seq<char>)| a.2, v3);
    let v2 = |a: (Seq<char>, Seq<char>, Seq<char>), b: (Seq<char>, Seq<char>, Seq<char>)| then_order(chars_order(a.1, b.1), v3(a, b));
    lemma_field_then(chars_order_fn(), |a: (Seq<char>, Seq<char>, Seq<char>)| a.1, v3, v2);
    let v1 = validation_order_fn();
    lemma_field_then(chars_order_fn(), |a: (Seq<char>, Seq<char>, Seq<char>)| a.0, v2, v1);
    assert forall|x: (Seq<char>, Seq<char>, Seq<char>), y: (Seq<char>, Seq<char>, Seq<char>)| #[trigger] v1(x, y) == 0 implies x == y by {
        lemma_total_order_zero(chars_order_fn(), x.0, y.0);
        lemma_total_order_zero(chars_order_fn(), x.1, y.1);
        lemma_total_order_zero(chars_order_fn(), x.2, y.2);
    }
    lemma_preorder_total(v1);

    let u3 = |a: (Seq<char>, ProgramOptionView, Option<Seq<u8>>), b: (Seq<char>, ProgramOptionView, Option<Seq<u8>>)| opt_bytes_order(a.2, b.2);
    lemma_project_preorder(opt_bytes_order_fn(), |a: (Seq<char>, ProgramOptionView, Option<Seq<u8>>)| a.2, u3);
    let u2 = |a: (Seq<char>, ProgramOptionView, Option<Seq<u8>>), b: (Seq<char>, ProgramOptionView, Option<Seq<u8>>)| then_order(option_view_order(a.1, b.1), u3(a, b));
    lemma_field_then(option_view_order_fn(), |a: (Seq<char>, ProgramOptionView, Option<Seq<u8>>)| a.1, u3, u2);
    let u1 = utf8_order_fn();
    lemma_field_then(chars_order_fn(), |a: (Seq<char>, ProgramOptionView, Option<Seq<u8>>)| a.0, u2, u1);
    assert forall|x: (Seq<char>, ProgramOptionView, Option<Seq<u8>>), y: (Seq<char>, ProgramOptionView, Option<Seq<u8>>)| #[trigger] u1(x, y) == 0 implies x == y by {
        lemma_total_order_zero(chars_order_fn(), x.0, y.0);
        lemma_total_order_zero(option_view_order_fn(), x.1, y.1);
        lemma_total_order_zero(opt_bytes_order_fn(), x.2, y.2);
    }
    lemma_preorder_total(u1);
}

/// The position of an error's kind in its declaration.
pub open spec fn error_index(e: InnerErrorView) -> int {
    match e {
        InnerErrorView::MissingRequiredParameter(..) => 0,
        InnerErrorView::InvalidParameterValue(..) => 1,
        InnerErrorView::TooFewArguments(..) => 2,
        InnerErrorView::TooManyArguments(..) => 3,
        InnerErrorView::ValidationFailed(..) => 4,
        InnerErrorView::InvalidUtf8Env(..) => 5,
    }
}

/// Errors by kind in declaration order; two errors of one kind by their fields.
pub open spec fn error_order(a: InnerErrorView, b: InnerErrorView) -> int {
    match (a, b) {
        (
            InnerErrorView::MissingRequiredParameter(o1, d1),
            InnerErrorView::MissingRequiredParameter(o2, d2),
        ) => missing_order((o1, d1), (o2, d2)),
        (
            InnerErrorView::InvalidParameterValue(s1, v1, o1, m1),
            InnerErrorView::InvalidParameterValue(s2, v2, o2, m2),
        ) => invalid_order((s1, v1, o1, m1), (s2, v2, o2, m2)),
        (
            InnerErrorView::TooFewArguments(n1, p1, os1, fs1, d1),
            InnerErrorView::TooFewArguments(n2, p2, os2, fs2, d2),
        ) => too_few_order((n1, p1, os1, fs1, d1), (n2, p2, os2, fs2, d2)),
        (
            InnerErrorView::TooManyArguments(n1, p1, ss1, fs1),
            InnerErrorView::TooManyArguments(n2, p2, ss2, fs2),
        ) => too_many_order((n1, p1, ss1, fs1), (n2, p2, ss2, fs2)),
        (
            InnerErrorView::ValidationFailed(n1, p1, m1),
            InnerErrorView::ValidationFailed(n2, p2, m2),
        ) => validation_order((n1, p1, m1), (n2, p2, m2)),
        (
            InnerErrorView::InvalidUtf8Env(n1, o1, v1),
            InnerErrorView::InvalidUtf8Env(n2, o2, v2),
        ) => utf8_order((n1, o1, v1), (n2, o2, v2)),
        _ => int_order(error_index(a), error_index(b)),
    }
}

/// `error_order` as a value.
pub open spec fn error_order_fn() -> spec_fn(InnerErrorView, InnerErrorView) -> int {
    |a: InnerErrorView, b: InnerErrorView| error_order(a, b)
}

/// "Not after", the order in which errors are reported.
pub open spec fn error_le(a: InnerErrorView, b: InnerErrorView) -> bool {
    error_order(a, b) <= 0
}

/// `error_le` as a value.
pub open spec fn error_le_fn() -> spec_fn(InnerErrorView, InnerErrorView) -> bool {
    |a: InnerErrorView, b: InnerErrorView| error_le(a, b)
}

/// The order of errors is total.
pub proof fn lemma_error_order_total()
    ensures
        total_order(error_order_fn()),
{
    lemma_field_orders_total();
    let f = error_order_fn();
    assert forall|x: InnerErrorView, y: InnerErrorView| #[trigger] f(x, y) == -f(y, x) by {
        match (x, y) {
            (InnerErrorView::MissingRequiredParameter(o1, d1), InnerErrorView::MissingRequiredParameter(o2, d2)) => {
                assert(missing_order_fn()((o1, d1), (o2, d2)) == -missing_order_fn()((o2, d2), (o1, d1)));
            },
            (InnerErrorView::InvalidParameterValue(s1, v1, o1, m1), InnerErrorView::InvalidParameterValue(s2, v2, o2, m2)) => {
                assert(invalid_order_fn()((s1, v1, o1, m1), (s2, v2, o2, m2)) == -invalid_order_fn()((s2, v2, o2, m2), (s1, v1, o1, m1)));
            },
            (InnerErrorView::TooFewArguments(n1, p1, os1, fs1, d1), InnerErrorView::TooFewArguments(n2, p2, os2, fs2, d2)) => {
                assert(too_few_order_fn()((n1, p1, os1, fs1, d1), (n2, p2, os2, fs2, d2)) == -too_few_order_fn()((n2, p2, os2, fs2, d2), (n1, p1, os1, fs1, d1)));
            },
            (InnerErrorView::TooManyArguments(n1, p1, ss1, fs1), InnerErrorView::TooManyArguments(n2, p2, ss2, fs2)) => {
                assert(too_many_order_fn()((n1, p1, ss1, fs1), (n2, p2, ss2, fs2)) == -too_many_order_fn()((n2, p2, ss2, fs2), (n1, p1, ss1, fs1)));
            },
            (InnerErrorView::ValidationFailed(n1, p1, m1), InnerErrorView::ValidationFailed(n2, p2, m2)) => {
                assert(validation_order_fn()((n1, p1, m1), (n2, p2, m2)) == -validation_order_fn()((n2, p2, m2), (n1, p1, m1)));
            },
            (InnerErrorView::InvalidUtf8Env(n1, o1, v1), InnerErrorView::InvalidUtf8Env(n2, o2, v2)) => {
                assert(utf8_order_fn()((n1, o1, v1), (n2, o2, v2)) == -utf8_order_fn()((n2, o2, v2), (n1, o1, v1)));
            },
            _ => {},
        }
    }
    assert forall|x: InnerErrorView, y: InnerErrorView| #[trigger] f(x, y) == 0 implies x == y by {
        match (x, y) {
            (InnerErrorView::MissingRequiredParameter(o1, d1), InnerErrorView::MissingRequiredParameter(o2, d2)) => {
                lemma_total_order_zero(missing_order_fn(), (o1, d1), (o2, d2));
            },
            (InnerErrorView::InvalidParameterValue(s1, v1, o1, m1), InnerErrorView::InvalidParameterValue(s2, v2, o2, m2)) => {
                lemma_total_order_zero(invalid_order_fn(), (s1, v1, o1, m1), (s2, v2, o2, m2));
            },
            (InnerErrorView::TooFewArguments(n1, p1, os1, fs1, d1), InnerErrorView::TooFewArguments(n2, p2, os2, fs2, d2)) => {
                lemma_total_order_zero(too_few_order_fn(), (n1, p1, os1, fs1, d1), (n2, p2, os2, fs2, d2));
            },
            (InnerErrorView::TooManyArguments(n1, p1, ss1, fs1), InnerErrorView::TooManyArguments(n2, p2, ss2, fs2)) => {
                lemma_total_order_zero(too_many_order_fn(), (n1, p1, ss1, fs1), (n2, p2, ss2, fs2));
            },
            (InnerErrorView::ValidationFailed(n1, p1, m1), InnerErrorView::ValidationFailed(n2, p2, m2)) => {
                lemma_total_order_zero(validation_order_fn(), (n1, p1, m1), (n2, p2, m2));
            },
            (InnerErrorView::InvalidUtf8Env(n1, o1, v1), InnerErrorView::InvalidUtf8Env(n2, o2, v2)) => {
                lemma_total_order_zero(utf8_order_fn(), (n1, o1, v1), (n2, o2, v2));
            },
            _ => {},
        }
    }
    assert forall|x: InnerErrorView, y: InnerErrorView, z: InnerErrorView|
        #[trigger] f(x, y) <= 0 && #[trigger] f(y, z) <= 0 implies f(x, z) <= 0 by {
        match (x, y, z) {
            (InnerErrorView::MissingRequiredParameter(o1, d1), InnerErrorView::MissingRequiredParameter(o2, d2), InnerErrorView::MissingRequiredParameter(o3, d3)) => {
                assert(missing_order_fn()((o1, d1), (o2, d2)) <= 0 && missing_order_fn()((o2, d2), (o3, d3)) <= 0 ==> missing_order_fn()((o1, d1), (o3, d3)) <= 0);
            },
            (InnerErrorView::InvalidParameterValue(s1, v1, o1, m1), InnerErrorView::InvalidParameterValue(s2, v2, o2, m2), InnerErrorView::InvalidParameterValue(s3, v3, o3, m3)) => {
                assert(invalid_order_fn()((s1, v1, o1, m1), (s2, v2, o2, m2)) <= 0 && invalid_order_fn()((s2, v2, o2, m2), (s3, v3, o3, m3)) <= 0 ==> invalid_order_fn()((s1, v1, o1, m1), (s3, v3, o3, m3)) <= 0);
            },
            (InnerErrorView::TooFewArguments(n1, p1, os1, fs1, d1), InnerErrorView::TooFewArguments(n2, p2, os2, fs2, d2), InnerErrorView::TooFewArguments(n3, p3, os3, fs3, d3)) => {
                assert(too_few_order_fn()((n1, p1, os1, fs1, d1), (n2, p2, os2, fs2, d2)) <= 0 && too_few_order_fn()((n2, p2, os2, fs2, d2), (n3, p3, os3, fs3, d3)) <= 0 ==> too_few_order_fn()((n1, p1, os1, fs1, d1), (n3, p3, os3, fs3, d3)) <= 0);
            },
            (InnerErrorView::TooManyArguments(n1, p1, ss1, fs1), InnerErrorView::TooManyArguments(n2, p2, ss2, fs2), InnerErrorView::TooManyArguments(n3, p3, ss3, fs3)) => {
                assert(too_many_order_fn()((n1, p1, ss1, fs1), (n2, p2, ss2, fs2)) <= 0 && too_many_order_fn()((n2, p2, ss2, fs2), (n3, p3, ss3, fs3)) <= 0 ==> too_many_order_fn()((n1, p1, ss1, fs1), (n3, p3, ss3, fs3)) <= 0);
            },
            (InnerErrorView::ValidationFailed(n1, p1, m1), InnerErrorView::ValidationFailed(n2, p2, m2), InnerErrorView::ValidationFailed(n3, p3, m3)) => {
                assert(validation_order_fn()((n1, p1, m1), (n2, p2, m2)) <= 0 && validation_order_fn()((n2, p2, m2), (n3, p3, m3)) <= 0 ==> validation_order_fn()((n1, p1, m1), (n3, p3, m3)) <= 0);
            },
            (InnerErrorView::InvalidUtf8Env(n1, o1, v1), InnerErrorView::InvalidUtf8Env(n2, o2, v2), InnerErrorView::InvalidUtf8Env(n3, o3, v3)) => {
                assert(utf8_order_fn()((n1, o1, v1), (n2, o2, v2)) <= 0 && utf8_order_fn()((n2, o2, v2), (n3, o3, v3)) <= 0 ==> utf8_order_fn()((n1, o1, v1), (n3, o3, v3)) <= 0);
            },
            _ => {},
        }
    }
}

/// "Not after" under a total three-way comparison is a total ordering in vstd's sense.
pub proof fn lemma_total_order_le<A>(f: spec_fn(A, A) -> int, le: spec_fn(A, A) -> bool)
    requires
        total_order(f),
        forall|x: A, y: A| #[trigger] le(x, y) == (f(x, y) <= 0),
    ensures
        vstd::relations::total_ordering(le),
{
    assert forall|x: A| #[trigger] le(x, x) by {
        assert(f(x, x) == -f(x, x));
    }
    assert forall|x: A, y: A| #[trigger] le(x, y) && #[trigger] le(y, x) implies x == y by {
        assert(f(x, y) == -f(y, x));
    }
    assert forall|x: A, y: A, z: A| #[trigger] le(x, y) && #[trigger] le(y, z) implies le(x, z) by {
        assert(f(x, y) <= 0 && f(y, z) <= 0);
    }
    assert forall|x: A, y: A| #[trigger] le(x, y) || #[trigger] le(y, x) by {
        assert(f(x, y) == -f(y, x));
    }
}

/// The order in which errors are reported is a total ordering.
pub proof fn lemma_error_le_total()
    ensures
        total_order(error_order_fn()),
        vstd::relations::total_ordering(error_le_fn()),
{
    lemma_error_order_total();
    lemma_total_order_le(error_order_fn(), error_le_fn());
}

} // verus!
