//! Default switch and variable names derived from a field name, and doc-string handling.
use vstd::prelude::*;
use heck::{ToKebabCase, ToShoutySnakeCase, ToSnakeCase};
use crate::text::{lowercase, to_lowercase, push_char, string_of};

verus! {

/// What `heck::ToKebabCase::to_kebab_case` returns for a string with these characters.
pub uninterp spec fn kebab_case(s: Seq<char>) -> Seq<char>;

/// What `heck::ToShoutySnakeCase::to_shouty_snake_case` returns for a string with these
/// characters.
pub uninterp spec fn shouty_snake_case(s: Seq<char>) -> Seq<char>;

/// `heck::ToKebabCase::to_kebab_case` on a `str`: the words of the string in lowercase,
/// joined by hyphens. The contract only names the result.
#[verifier::external_body]
pub(crate) fn to_kebab(s: &str) -> (r: String)
    ensures
        r@ == kebab_case(s@),
{
    s.to_kebab_case()
}

/// `heck::ToShoutySnakeCase::to_shouty_snake_case` on a `str`: the words of the string in
/// uppercase, joined by underscores. The contract only names the result.
#[verifier::external_body]
fn to_shouty_snake(s: &str) -> (r: String)
    ensures
        r@ == shouty_snake_case(s@),
{
    s.to_shouty_snake_case()
}

/// What `heck::ToSnakeCase::to_snake_case` returns for a string with these characters.
pub uninterp spec fn snake_case(s: Seq<char>) -> Seq<char>;

/// `heck::ToSnakeCase::to_snake_case` on a `str`: the words of the string in lowercase, joined
/// by underscores. The contract only names the result.
#[verifier::external_body]
pub(crate) fn to_snake(s: &str) -> (r: String)
    ensures
        r@ == snake_case(s@),
{
    s.to_snake_case()
}

/// The default short switch of a field: the first character of its lowercase name, or none
/// for an empty name.
pub fn make_short(ident: &str) -> (r: Option<char>)
    ensures
        match r {
            Some(c) => ident@.len() > 0 && c == lowercase(ident@)[0],
            None => ident@.len() == 0,
        },
{
    if ident.unicode_len() == 0 {
        return None;
    }
    let lower = to_lowercase(ident);
    Some(lower.as_str().get_char(0))
}

/// The default long switch of a field: its name in kebab case, or none for an empty name.
pub fn make_long(ident: &str) -> (r: Option<String>)
    ensures
        match r {
            Some(s) => ident@.len() > 0 && s@ == kebab_case(ident@),
            None => ident@.len() == 0,
        },
{
    if ident.unicode_len() == 0 {
        return None;
    }
    Some(to_kebab(ident))
}

/// The default environment variable of a field: its name in shouty snake case, or none for
/// an empty name.
pub fn make_env(ident: &str) -> (r: Option<String>)
    ensures
        match r {
            Some(s) => ident@.len() > 0 && s@ == shouty_snake_case(ident@),
            None => ident@.len() == 0,
        },
{
    if ident.unicode_len() == 0 {
        return None;
    }
    Some(to_shouty_snake(ident))
}

/// The default long-switch prefix of a flattened field: its name in kebab case, then `-`.
pub fn make_long_prefix(ident: &str) -> (r: Option<String>)
    ensures
        r matches Some(s) && s@ == kebab_case(ident@) + "-"@,
{
    let mut s = to_kebab(ident);
    s.append("-");
    Some(s)
}

/// The default env prefix of a flattened field: its name in shouty snake case, then `_`.
pub fn make_env_prefix(ident: &str) -> (r: Option<String>)
    ensures
        r matches Some(s) && s@ == shouty_snake_case(ident@) + "_"@,
{
    let mut s = to_shouty_snake(ident);
    s.append("_");
    Some(s)
}

/// Whether a character has the Unicode `White_Space` property, as std `char::is_whitespace`
/// documents it: the ASCII tab, line feed, vertical tab, form feed, carriage return and space,
/// U+0085, U+00A0, U+1680, U+2000 to U+200A, U+2028, U+2029, U+202F, U+205F and U+3000.
pub open spec fn is_whitespace(c: char) -> bool {
    let n = c as u32;
    ||| 0x9 <= n <= 0xD
    ||| n == 0x20
    ||| n == 0x85
    ||| n == 0xA0
    ||| n == 0x1680
    ||| 0x2000 <= n <= 0x200A
    ||| n == 0x2028
    ||| n == 0x2029
    ||| n == 0x202F
    ||| n == 0x205F
    ||| n == 0x3000
}

/// Whether a character has the Unicode `White_Space` property (see `is_whitespace`).
pub fn char_is_whitespace(c: char) -> (r: bool)
    ensures
        r == is_whitespace(c),
{
    let n = c as u32;
    (0x9 <= n && n <= 0xD) || n == 0x20 || n == 0x85 || n == 0xA0 || n == 0x1680 || (0x2000 <= n
        && n <= 0x200A) || n == 0x2028 || n == 0x2029 || n == 0x202F || n == 0x205F || n == 0x3000
}

/// The number of leading whitespace characters of `s`.
pub open spec fn leading_ws(s: Seq<char>) -> int
    decreases s.len(),
{
    if s.len() > 0 && is_whitespace(s[0]) {
        1 + leading_ws(s.drop_first())
    } else {
        0
    }
}

/// The number of trailing whitespace characters of `s`.
pub open spec fn trailing_ws(s: Seq<char>) -> int
    decreases s.len(),
{
    if s.len() > 0 && is_whitespace(s.last()) {
        1 + trailing_ws(s.drop_last())
    } else {
        0
    }
}

/// `s` without leading and trailing whitespace (std `str::trim`).
pub open spec fn spec_trim(s: Seq<char>) -> Seq<char> {
    let lead = leading_ws(s);
    let rest = s.skip(lead);
    rest.take(rest.len() - trailing_ws(rest))
}

proof fn lemma_leading_ws(s: Seq<char>, i: int)
    requires
        0 <= i <= s.len(),
        forall|k: int| 0 <= k < i ==> is_whitespace(#[trigger] s[k]),
        i == s.len() || !is_whitespace(s[i]),
    ensures
        leading_ws(s) == i,
    decreases i,
{
    if i > 0 {
        lemma_leading_ws(s.drop_first(), i - 1);
    }
}

proof fn lemma_trailing_ws(s: Seq<char>, j: int)
    requires
        0 <= j <= s.len(),
        forall|k: int| j <= k < s.len() ==> is_whitespace(#[trigger] s[k]),
        j == 0 || !is_whitespace(s[j - 1]),
    ensures
        trailing_ws(s) == s.len() - j,
    decreases s.len() - j,
{
    if j < s.len() {
        lemma_trailing_ws(s.drop_last(), j);
    }
}

/// `s` without leading and trailing whitespace (std `str::trim`).
pub fn trim(s: &str) -> (r: String)
    ensures
        r@ == spec_trim(s@),
{
    let n = s.unicode_len();
    let mut i: usize = 0;
    while i < n && char_is_whitespace(s.get_char(i))
        invariant
            n == s@.len(),
            i <= n,
            forall|k: int| 0 <= k < i ==> is_whitespace(#[trigger] s@[k]),
        decreases n - i,
    {
        i = i + 1;
    }
    proof {
        lemma_leading_ws(s@, i as int);
    }
    let mut j: usize = n;
    while j > i && char_is_whitespace(s.get_char(j - 1))
        invariant
            n == s@.len(),
            i <= j <= n,
            forall|k: int| j <= k < n ==> is_whitespace(#[trigger] s@[k]),
        decreases j,
    {
        j = j - 1;
    }
    let ghost rest = s@.skip(i as int);
    proof {
        assert forall|k: int| j - i <= k < rest.len() implies is_whitespace(#[trigger] rest[k]) by {
            assert(rest[k] == s@[k + i]);
        }
        if j > i {
            assert(rest[j - i - 1] == s@[j - 1]);
        }
        lemma_trailing_ws(rest, j - i);
    }
    let r = string_of(s.substring_char(i, j));
    assert(r@ =~= rest.take(rest.len() - trailing_ws(rest)));
    r
}

/// Each line of `s` trimmed, joined by newlines.
pub open spec fn spec_trim_lines(s: Seq<char>) -> Seq<char> {
    spec_join_trimmed(crate::conf_context::split_on(s, '\n'))
}

/// The lines trimmed and joined by newlines.
pub open spec fn spec_join_trimmed(lines: Seq<Seq<char>>) -> Seq<char>
    decreases lines.len(),
{
    if lines.len() == 0 {
        Seq::empty()
    } else if lines.len() == 1 {
        spec_trim(lines[0])
    } else {
        spec_join_trimmed(lines.drop_last()) + "\n"@ + spec_trim(lines.last())
    }
}

/// A description after appending a doc-string line: the doc string with each of its lines
/// trimmed, after a newline if there already is a description.
pub open spec fn spec_append_doc(description: Option<Seq<char>>, doc: Seq<char>) -> Option<Seq<char>> {
    let trimmed = spec_trim_lines(doc);
    match description {
        Some(d) => Some(d + "\n"@ + trimmed),
        None => Some(trimmed),
    }
}

/// Appends a doc-string attribute's text to a description: each line is trimmed of leading
/// and trailing whitespace, the line breaks are kept, and the text goes after a newline if
/// there already is a description.
pub fn append_doc_string(description: &mut Option<String>, doc: &str)
    ensures
        crate::program_option::opt_view(*final(description)) == spec_append_doc(
            crate::program_option::opt_view(*old(description)),
            doc@,
        ),
{
    let lines = crate::conf_context::split_str(doc, '\n');
    let ghost lv = lines@.map_values(|p: &str| p@);
    proof {
        crate::conf_context::lemma_split_on_nonempty(doc@, '\n');
    }
    let mut trimmed = String::new();
    let n = lines.len();
    let mut i: usize = 0;
    while i < n
        invariant
            n == lines@.len(),
            lv == lines@.map_values(|p: &str| p@),
            lv == crate::conf_context::split_on(doc@, '\n'),
            i <= n,
            i == 0 ==> trimmed@ == Seq::<char>::empty(),
            i > 0 ==> trimmed@ == spec_join_trimmed(lv.take(i as int)),
        decreases n - i,
    {
        assert(lv.take(i + 1).drop_last() =~= lv.take(i as int));
        assert(lv.take(i + 1).last() == lines@[i as int]@);
        let t = trim(lines[i]);
        if i > 0 {
            trimmed.append("\n");
        } else {
            assert(lv.take(1) =~= seq![lv[0]]);
        }
        trimmed.append(t.as_str());
        i = i + 1;
    }
    assert(lv.take(n as int) =~= lv);
    match description {
        Some(d) => {
            d.append("\n");
            d.append(trimmed.as_str());
        },
        None => {
            *description = Some(trimmed);
        },
    }
}

} // verus!
