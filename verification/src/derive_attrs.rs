//! The attributes and types that the `Conf` derive reads from a struct, held as plain values:
//! what the tokens of `#[conf(...)]` attributes say, and the shape of a field's type. The
//! derive's decisions (which options a field has, and which combinations are refused) are made
//! over these values.
use vstd::prelude::*;
use crate::naming::{append_doc_string, spec_append_doc};
use crate::program_option::opt_view;
use crate::text::{str_eq, string_of};

verus! {

/// A literal in an attribute.
pub enum Lit {
    /// A string literal, with its value.
    Str(String),
    /// A character literal.
    Char(char),
    /// `true` or `false`.
    Bool(bool),
    /// Any other literal (a number, a byte string, ...).
    Other,
}

/// What follows a key inside an attribute's parentheses.
pub enum AttrValue {
    /// Nothing: the key stands alone, followed by a comma or the end.
    Absent,
    /// `= <literal>`.
    Lit(Lit),
    /// `= [<literal>, ...]`: a bracketed list of literals.
    Array(Vec<Lit>),
    /// `= <expression>` for any other expression.
    Expr,
    /// `(...)` holding nested `key` / `key = value` items.
    Nested(Vec<AttrArg>),
    /// `(...)` holding anything else (an expression).
    ParenExpr,
}

/// One item inside an attribute's parentheses: a key and what follows it.
pub struct AttrArg {
    /// The key (a path such as `long`).
    pub key: String,
    /// What follows the key.
    pub value: AttrValue,
    /// The source text of the value: after `=`, or inside the parentheses (empty if absent).
    pub text: String,
}

/// An attribute on a struct or a field.
pub enum Attr {
    /// `#[name(...)]`, with the items inside the parentheses.
    List(String, Vec<AttrArg>),
    /// `#[name]`.
    Path(String),
    /// `#[name = value]`, e.g. a doc comment `#[doc = "..."]`.
    NameValue(String, AttrValue),
}

/// A generic argument of a type.
pub enum GenericArg {
    /// A type; its identifier if it is a path of one segment without generic arguments.
    Type(Option<String>),
    /// A lifetime, a constant or a binding.
    NotType,
}

/// The generic arguments of the last segment of a path.
pub enum GenericArgs {
    /// None.
    Plain,
    /// `<...>`.
    Angle(Vec<GenericArg>),
    /// `(...) -> ...`, as in `Fn(A) -> B`.
    Parenthesized,
}

/// The shape of a field's type, as far as the derive looks at it.
pub enum TypeShape {
    /// A path of one segment, without a leading `::` or a qualified self: its identifier and
    /// generic arguments (such as `Option<T>`, `bool`).
    Path(String, GenericArgs),
    /// Any other type.
    Other,
}

/// The messages of a derive error (an error may combine several, each at its own place).
pub type Messages = Seq<Seq<char>>;

/// An error refused by the derive: its messages.
pub struct DeriveError {
    pub messages: Vec<String>,
}

/// The messages of an error.
pub open spec fn messages_view(e: DeriveError) -> Messages {
    e.messages@.map_values(|m: String| m@)
}

/// An error with one message.
pub fn derive_error(message: &str) -> (r: DeriveError)
    ensures
        messages_view(r) == seq![message@],
{
    let mut messages: Vec<String> = Vec::new();
    messages.push(string_of(message));
    let r = DeriveError { messages };
    assert(messages_view(r) =~= seq![message@]);
    r
}

/// The error for an option given twice (`set_once`): the option is named at the second place,
/// and the earlier place is pointed out.
pub open spec fn twice_error(key: Seq<char>) -> Messages {
    seq![key + " cannot be specified twice"@, "Earlier specified here"@]
}

/// The error for an option given twice.
pub fn twice(key: &str) -> (r: DeriveError)
    ensures
        messages_view(r) == twice_error(key@),
{
    let mut first = string_of(key);
    first.append(" cannot be specified twice");
    let mut messages: Vec<String> = Vec::new();
    messages.push(first);
    messages.push(string_of("Earlier specified here"));
    let r = DeriveError { messages };
    assert(messages_view(r) =~= twice_error(key@));
    r
}

/// The message when a value is required but there is no `=`.
pub open spec fn expected_eq() -> Seq<char> {
    "expected `=`"@
}

/// The message when a key that takes no value is followed by one.
pub open spec fn expected_comma() -> Seq<char> {
    "expected `,`"@
}

/// Whether a value is introduced by `=` (or is nothing at all), as opposed to parentheses.
pub open spec fn has_eq(v: AttrValue) -> bool {
    v is Lit || v is Array || v is Expr
}

/// A required string value (`key = "text"`).
pub open spec fn spec_req_str(v: AttrValue) -> Result<Seq<char>, Messages> {
    match v {
        AttrValue::Lit(Lit::Str(s)) => Ok(s@),
        AttrValue::Lit(_) | AttrValue::Array(_) | AttrValue::Expr => Err(
            seq!["expected string literal"@],
        ),
        _ => Err(seq![expected_eq()]),
    }
}

/// An optional string value (`key` or `key = "text"`).
pub open spec fn spec_opt_str(v: AttrValue) -> Result<Option<Seq<char>>, Messages> {
    match v {
        AttrValue::Absent => Ok(None),
        _ => match spec_req_str(v) {
            Ok(s) => Ok(Some(s)),
            Err(e) => Err(e),
        },
    }
}

/// A required character value (`key = 'c'`).
pub open spec fn spec_req_char(v: AttrValue) -> Result<char, Messages> {
    match v {
        AttrValue::Lit(Lit::Char(c)) => Ok(c),
        AttrValue::Lit(_) | AttrValue::Array(_) | AttrValue::Expr => Err(
            seq!["expected character literal"@],
        ),
        _ => Err(seq![expected_eq()]),
    }
}

/// An optional character value.
pub open spec fn spec_opt_char(v: AttrValue) -> Result<Option<char>, Messages> {
    match v {
        AttrValue::Absent => Ok(None),
        _ => match spec_req_char(v) {
            Ok(c) => Ok(Some(c)),
            Err(e) => Err(e),
        },
    }
}

/// An optional boolean value.
pub open spec fn spec_opt_bool(v: AttrValue) -> Result<Option<bool>, Messages> {
    match v {
        AttrValue::Absent => Ok(None),
        AttrValue::Lit(Lit::Bool(b)) => Ok(Some(b)),
        AttrValue::Lit(_) | AttrValue::Array(_) | AttrValue::Expr => Err(
            seq!["expected boolean literal"@],
        ),
        _ => Err(seq![expected_eq()]),
    }
}

/// Whether every literal of a list is a string.
pub open spec fn all_str(items: Seq<Lit>) -> bool {
    forall|i: int| 0 <= i < items.len() ==> #[trigger] items[i] is Str
}

/// The values of a list of string literals.
pub open spec fn str_values(items: Seq<Lit>) -> Seq<Seq<char>> {
    items.map_values(|l: Lit| match l {
        Lit::Str(s) => s@,
        _ => Seq::empty(),
    })
}

/// Whether every literal of a list is a character.
pub open spec fn all_char(items: Seq<Lit>) -> bool {
    forall|i: int| 0 <= i < items.len() ==> #[trigger] items[i] is Char
}

/// The values of a list of character literals.
pub open spec fn char_values(items: Seq<Lit>) -> Seq<char> {
    items.map_values(|l: Lit| match l {
        Lit::Char(c) => c,
        _ => ' ',
    })
}

/// A required non-empty array of strings (`key = ["a", "b"]`).
pub open spec fn spec_req_str_array(v: AttrValue) -> Result<Seq<Seq<char>>, Messages> {
    match v {
        AttrValue::Array(items) => if items@.len() > 0 && all_str(items@) {
            Ok(str_values(items@))
        } else {
            Err(seq!["expected string literal"@])
        },
        AttrValue::Lit(_) | AttrValue::Expr => Err(seq!["expected square brackets"@]),
        _ => Err(seq![expected_eq()]),
    }
}

/// A required non-empty array of characters (`key = ['a', 'b']`).
pub open spec fn spec_req_char_array(v: AttrValue) -> Result<Seq<char>, Messages> {
    match v {
        AttrValue::Array(items) => if items@.len() > 0 && all_char(items@) {
            Ok(char_values(items@))
        } else {
            Err(seq!["expected character literal"@])
        },
        AttrValue::Lit(_) | AttrValue::Expr => Err(seq!["expected square brackets"@]),
        _ => Err(seq![expected_eq()]),
    }
}

/// A required expression (`key = <expression>`): its source text.
pub open spec fn spec_req_expr(arg: AttrArg) -> Result<Seq<char>, Messages> {
    if has_eq(arg.value) {
        Ok(arg.text@)
    } else {
        Err(seq![expected_eq()])
    }
}

/// A key that takes no value: nothing may follow it.
pub open spec fn spec_marker(v: AttrValue) -> Result<(), Messages> {
    if has_eq(v) {
        Err(seq![expected_comma()])
    } else {
        Ok(())
    }
}

/// The messages of an exec error result.
pub open spec fn err_view<T>(r: Result<T, DeriveError>) -> Result<T, Messages> {
    match r {
        Ok(t) => Ok(t),
        Err(e) => Err(messages_view(e)),
    }
}

/// `spec_req_str`.
pub fn req_str(v: &AttrValue) -> (r: Result<String, DeriveError>)
    ensures
        match r {
            Ok(s) => spec_req_str(*v) == Ok::<Seq<char>, Messages>(s@),
            Err(e) => spec_req_str(*v) == Err::<Seq<char>, Messages>(messages_view(e)),
        },
{
    match v {
        AttrValue::Lit(Lit::Str(s)) => Ok(s.clone()),
        AttrValue::Lit(_) | AttrValue::Array(_) | AttrValue::Expr => Err(
            derive_error("expected string literal"),
        ),
        _ => Err(derive_error("expected `=`")),
    }
}

/// `spec_opt_str`.
pub fn opt_str(v: &AttrValue) -> (r: Result<Option<String>, DeriveError>)
    ensures
        match r {
            Ok(s) => spec_opt_str(*v) == Ok::<Option<Seq<char>>, Messages>(opt_view(s)),
            Err(e) => spec_opt_str(*v) == Err::<Option<Seq<char>>, Messages>(messages_view(e)),
        },
{
    match v {
        AttrValue::Absent => Ok(None),
        _ => match req_str(v) {
            Ok(s) => Ok(Some(s)),
            Err(e) => Err(e),
        },
    }
}

/// `spec_req_char`.
pub fn req_char(v: &AttrValue) -> (r: Result<char, DeriveError>)
    ensures
        match r {
            Ok(c) => spec_req_char(*v) == Ok::<char, Messages>(c),
            Err(e) => spec_req_char(*v) == Err::<char, Messages>(messages_view(e)),
        },
{
    match v {
        AttrValue::Lit(Lit::Char(c)) => Ok(*c),
        AttrValue::Lit(_) | AttrValue::Array(_) | AttrValue::Expr => Err(
            derive_error("expected character literal"),
        ),
        _ => Err(derive_error("expected `=`")),
    }
}

/// `spec_opt_char`.
pub fn opt_char(v: &AttrValue) -> (r: Result<Option<char>, DeriveError>)
    ensures
        match r {
            Ok(c) => spec_opt_char(*v) == Ok::<Option<char>, Messages>(c),
            Err(e) => spec_opt_char(*v) == Err::<Option<char>, Messages>(messages_view(e)),
        },
{
    match v {
        AttrValue::Absent => Ok(None),
        _ => match req_char(v) {
            Ok(c) => Ok(Some(c)),
            Err(e) => Err(e),
        },
    }
}

/// `spec_opt_bool`.
pub fn opt_bool(v: &AttrValue) -> (r: Result<Option<bool>, DeriveError>)
    ensures
        match r {
            Ok(b) => spec_opt_bool(*v) == Ok::<Option<bool>, Messages>(b),
            Err(e) => spec_opt_bool(*v) == Err::<Option<bool>, Messages>(messages_view(e)),
        },
{
    match v {
        AttrValue::Absent => Ok(None),
        AttrValue::Lit(Lit::Bool(b)) => Ok(Some(*b)),
        AttrValue::Lit(_) | AttrValue::Array(_) | AttrValue::Expr => Err(
            derive_error("expected boolean literal"),
        ),
        _ => Err(derive_error("expected `=`")),
    }
}

/// `spec_req_str_array`.
pub fn req_str_array(v: &AttrValue) -> (r: Result<Vec<String>, DeriveError>)
    ensures
        match r {
            Ok(a) => spec_req_str_array(*v) == Ok::<Seq<Seq<char>>, Messages>(
                a@.map_values(|s: String| s@),
            ),
            Err(e) => spec_req_str_array(*v) == Err::<Seq<Seq<char>>, Messages>(messages_view(e)),
        },
{
    match v {
        AttrValue::Array(items) => {
            let n = items.len();
            if n == 0 {
                return Err(derive_error("expected string literal"));
            }
            let mut out: Vec<String> = Vec::new();
            let mut i: usize = 0;
            while i < n
                invariant
                    n == items@.len(),
                    *v == AttrValue::Array(*items),
                    i <= n,
                    forall|k: int| 0 <= k < i ==> #[trigger] items@[k] is Str,
                    out@.map_values(|s: String| s@) == str_values(items@).take(i as int),
                decreases n - i,
            {
                match &items[i] {
                    Lit::Str(s) => {
                        let ghost before = out@.map_values(|s: String| s@);
                        out.push(s.clone());
                        assert(out@.map_values(|s: String| s@) =~= before.push(s@));
                        assert(str_values(items@).take(i + 1) =~= str_values(items@).take(
                            i as int,
                        ).push(s@));
                    },
                    _ => {
                        assert(!(items@[i as int] is Str));
                        assert(!all_str(items@));
                        return Err(derive_error("expected string literal"));
                    },
                }
                i = i + 1;
            }
            assert(str_values(items@).take(n as int) =~= str_values(items@));
            Ok(out)
        },
        AttrValue::Lit(_) | AttrValue::Expr => Err(derive_error("expected square brackets")),
        _ => Err(derive_error("expected `=`")),
    }
}

/// `spec_req_char_array`.
pub fn req_char_array(v: &AttrValue) -> (r: Result<Vec<char>, DeriveError>)
    ensures
        match r {
            Ok(a) => spec_req_char_array(*v) == Ok::<Seq<char>, Messages>(a@),
            Err(e) => spec_req_char_array(*v) == Err::<Seq<char>, Messages>(messages_view(e)),
        },
{
    match v {
        AttrValue::Array(items) => {
            let n = items.len();
            if n == 0 {
                return Err(derive_error("expected character literal"));
            }
            let mut out: Vec<char> = Vec::new();
            let mut i: usize = 0;
            while i < n
                invariant
                    n == items@.len(),
                    *v == AttrValue::Array(*items),
                    i <= n,
                    forall|k: int| 0 <= k < i ==> #[trigger] items@[k] is Char,
                    out@ == char_values(items@).take(i as int),
                decreases n - i,
            {
                match &items[i] {
                    Lit::Char(c) => {
                        out.push(*c);
                        assert(out@ =~= char_values(items@).take(i + 1));
                    },
                    _ => {
                        assert(!(items@[i as int] is Char));
                        assert(!all_char(items@));
                        return Err(derive_error("expected character literal"));
                    },
                }
                i = i + 1;
            }
            assert(char_values(items@).take(n as int) =~= char_values(items@));
            Ok(out)
        },
        AttrValue::Lit(_) | AttrValue::Expr => Err(derive_error("expected square brackets")),
        _ => Err(derive_error("expected `=`")),
    }
}

/// `spec_req_expr`.
pub fn req_expr(arg: &AttrArg) -> (r: Result<String, DeriveError>)
    ensures
        match r {
            Ok(s) => spec_req_expr(*arg) == Ok::<Seq<char>, Messages>(s@),
            Err(e) => spec_req_expr(*arg) == Err::<Seq<char>, Messages>(messages_view(e)),
        },
{
    match &arg.value {
        AttrValue::Lit(_) | AttrValue::Array(_) | AttrValue::Expr => Ok(arg.text.clone()),
        _ => Err(derive_error("expected `=`")),
    }
}

/// `spec_marker`.
pub fn marker(v: &AttrValue) -> (r: Result<(), DeriveError>)
    ensures
        match r {
            Ok(_) => spec_marker(*v) == Ok::<(), Messages>(()),
            Err(e) => spec_marker(*v) == Err::<(), Messages>(messages_view(e)),
        },
{
    match v {
        AttrValue::Lit(_) | AttrValue::Array(_) | AttrValue::Expr => Err(
            derive_error("expected `,`"),
        ),
        _ => Ok(()),
    }
}

/// Whether a type is `bool`.
pub open spec fn spec_type_is_bool(t: TypeShape) -> bool {
    t matches TypeShape::Path(id, GenericArgs::Plain) && id@ == "bool"@
}

/// Whether a type is a signed number (`i8` ... `i128`, `f32`, `f64`), whose values may start
/// with a hyphen.
pub open spec fn spec_name_is_signed_number(id: Seq<char>) -> bool {
    id == "i8"@ || id == "i16"@ || id == "i32"@ || id == "i64"@ || id == "i128"@ || id == "f32"@
        || id == "f64"@
}

/// Whether a type is a signed number type.
pub open spec fn spec_type_is_signed_number(t: TypeShape) -> bool {
    t matches TypeShape::Path(id, GenericArgs::Plain) && spec_name_is_signed_number(id@)
}

/// The message for a type that names a generic but does not give it one type argument.
pub open spec fn generic_error(generic: Seq<char>) -> Seq<char> {
    "Expected "@ + generic + "<T> for some type T"@
}

/// Whether a type is `G<T>` for the given generic `G`: the argument `T` (its identifier if it
/// is a plain one-segment path), none if the type is not `G<...>`, and an error if it is `G`
/// without exactly one type argument.
pub open spec fn spec_type_is_generic(generic: Seq<char>, t: TypeShape) -> Result<
    Option<Option<Seq<char>>>,
    Messages,
> {
    match t {
        TypeShape::Path(id, args) => if id@ != generic {
            Ok(None)
        } else {
            match args {
                GenericArgs::Angle(v) => if v@.len() == 1 {
                    match v@[0] {
                        GenericArg::Type(inner) => Ok(Some(opt_view(inner))),
                        GenericArg::NotType => Err(seq![generic_error(generic)]),
                    }
                } else {
                    Err(seq![generic_error(generic)])
                },
                _ => Err(seq![generic_error(generic)]),
            }
        },
        TypeShape::Other => Ok(None),
    }
}

/// Whether a type is `bool`.
pub fn type_is_bool(t: &TypeShape) -> (r: bool)
    ensures
        r == spec_type_is_bool(*t),
{
    match t {
        TypeShape::Path(id, GenericArgs::Plain) => str_eq(id.as_str(), "bool"),
        _ => false,
    }
}

/// Whether an identifier names a signed number type.
pub fn name_is_signed_number(id: &str) -> (r: bool)
    ensures
        r == spec_name_is_signed_number(id@),
{
    str_eq(id, "i8") || str_eq(id, "i16") || str_eq(id, "i32") || str_eq(id, "i64") || str_eq(
        id,
        "i128",
    ) || str_eq(id, "f32") || str_eq(id, "f64")
}

/// Whether a type is a signed number type.
pub fn type_is_signed_number(t: &TypeShape) -> (r: bool)
    ensures
        r == spec_type_is_signed_number(*t),
{
    match t {
        TypeShape::Path(id, GenericArgs::Plain) => name_is_signed_number(id.as_str()),
        _ => false,
    }
}

/// `spec_type_is_generic`.
pub fn type_is_generic(generic: &str, t: &TypeShape) -> (r: Result<Option<Option<String>>, DeriveError>)
    ensures
        match r {
            Ok(Some(inner)) => spec_type_is_generic(generic@, *t) == Ok::<
                Option<Option<Seq<char>>>,
                Messages,
            >(Some(opt_view(inner))),
            Ok(None) => spec_type_is_generic(generic@, *t) == Ok::<
                Option<Option<Seq<char>>>,
                Messages,
            >(None),
            Err(e) => spec_type_is_generic(generic@, *t) == Err::<
                Option<Option<Seq<char>>>,
                Messages,
            >(messages_view(e)),
        },
{
    match t {
        TypeShape::Path(id, args) => {
            if !str_eq(id.as_str(), generic) {
                return Ok(None);
            }
            let mut msg = string_of("Expected ");
            msg.append(generic);
            msg.append("<T> for some type T");
            match args {
                GenericArgs::Angle(v) => {
                    if v.len() == 1 {
                        match &v[0] {
                            GenericArg::Type(inner) => Ok(
                                Some(crate::program_option::clone_opt_string(inner)),
                            ),
                            GenericArg::NotType => Err(derive_error(msg.as_str())),
                        }
                    } else {
                        Err(derive_error(msg.as_str()))
                    }
                },
                _ => Err(derive_error(msg.as_str())),
            }
        },
        TypeShape::Other => Ok(None),
    }
}

/// The description after a doc attribute (`#[doc = "..."]`): its text appended; an error if
/// its value is not a string literal. Other attributes leave it unchanged.
pub open spec fn spec_doc_step(description: Option<Seq<char>>, attr: Attr) -> Result<
    Option<Seq<char>>,
    Messages,
> {
    match attr {
        Attr::NameValue(name, v) => if name@ == "doc"@ {
            match v {
                AttrValue::Lit(Lit::Str(s)) => Ok(spec_append_doc(description, s@)),
                _ => Err(seq!["Doc comment is not a string literal"@]),
            }
        } else {
            Ok(description)
        },
        _ => Ok(description),
    }
}

/// Appends the text of a doc attribute to a description (see `spec_doc_step`).
pub fn doc_step(description: &mut Option<String>, attr: &Attr) -> (r: Result<(), DeriveError>)
    ensures
        match r {
            Ok(_) => spec_doc_step(opt_view(*old(description)), *attr) == Ok::<
                Option<Seq<char>>,
                Messages,
            >(opt_view(*final(description))),
            Err(e) => spec_doc_step(opt_view(*old(description)), *attr) == Err::<
                Option<Seq<char>>,
                Messages,
            >(messages_view(e)),
        },
{
    match attr {
        Attr::NameValue(name, v) => {
            if str_eq(name.as_str(), "doc") {
                match v {
                    AttrValue::Lit(Lit::Str(s)) => {
                        append_doc_string(description, s.as_str());
                        Ok(())
                    },
                    _ => Err(derive_error("Doc comment is not a string literal")),
                }
            } else {
                Ok(())
            }
        },
        _ => Ok(()),
    }
}

/// The error for an attribute of the derive that has no parentheses: `#[conf]` or
/// `#[conf = ...]`.
pub open spec fn not_list_error(attr: Attr) -> Messages {
    match attr {
        Attr::Path(name) => seq!["expected attribute arguments in parentheses: #["@ + name@ + "(...)]"@],
        Attr::NameValue(name, _) => seq!["expected parentheses: #["@ + name@ + "(...)]"@],
        Attr::List(..) => Seq::empty(),
    }
}

/// The error for an attribute of the derive that has no parentheses (see `not_list_error`).
pub fn not_list(attr: &Attr) -> (r: DeriveError)
    requires
        !(attr is List),
    ensures
        messages_view(r) == not_list_error(*attr),
{
    match attr {
        Attr::Path(name) => {
            let mut m = string_of("expected attribute arguments in parentheses: #[");
            m.append(name.as_str());
            m.append("(...)]");
            derive_error(m.as_str())
        },
        Attr::NameValue(name, _) => {
            let mut m = string_of("expected parentheses: #[");
            m.append(name.as_str());
            m.append("(...)]");
            derive_error(m.as_str())
        },
        Attr::List(..) => {
            assert(false);
            derive_error("")
        },
    }
}

/// The name of an attribute.
pub open spec fn attr_name(attr: Attr) -> Seq<char> {
    match attr {
        Attr::List(n, _) => n@,
        Attr::Path(n) => n@,
        Attr::NameValue(n, _) => n@,
    }
}

/// The name of an attribute.
pub fn get_attr_name(attr: &Attr) -> (r: &str)
    ensures
        r@ == attr_name(*attr),
{
    match attr {
        Attr::List(n, _) => n.as_str(),
        Attr::Path(n) => n.as_str(),
        Attr::NameValue(n, _) => n.as_str(),
    }
}

} // verus!
