//! Reading the value of a program option from the parsed command line and the environment,
//! with a fixed precedence: command line, then env form, then env aliases, then default.
use vstd::prelude::*;
use vstd::utf8::{valid_utf8, decode_utf8, encode_utf8};
use crate::error::{DebugInfoView, InnerError, InnerErrorView, OwnedFlattenedOptionalDebugInfo};
use crate::parse_env::ParsedEnv;
use crate::parsed_args::ParsedArgs;
use crate::program_option::{ParseType, ProgramOption, ProgramOptionView, strs_view};
use crate::str_to_bool::{spec_str_to_bool, str_to_bool};
use crate::text::{concat_str, utf8_lossy, utf8_str, string_of};

verus! {

/// Where a value came from. It is generic over the string type so that it can hold borrowed
/// and owned names.
#[derive(Debug)]
pub enum ConfValueSource<S> {
    /// The command line.
    Args,
    /// The environment variable of this name.
    Env(S),
    /// The document of this name.
    Document(S),
    /// A default value.
    Default,
}

impl<S: View> View for ConfValueSource<S> {
    type V = ConfValueSource<S::V>;

    open spec fn view(&self) -> ConfValueSource<S::V> {
        match self {
            ConfValueSource::Args => ConfValueSource::Args,
            ConfValueSource::Env(s) => ConfValueSource::Env(s@),
            ConfValueSource::Document(s) => ConfValueSource::Document(s@),
            ConfValueSource::Default => ConfValueSource::Default,
        }
    }
}

impl<'a> ConfValueSource<&'a str> {
    /// The same source, owning its name.
    pub fn into_owned(self) -> (r: ConfValueSource<String>)
        ensures
            r@ == self@,
    {
        match self {
            ConfValueSource::Args => ConfValueSource::Args,
            ConfValueSource::Env(s) => ConfValueSource::Env(string_of(s)),
            ConfValueSource::Document(s) => ConfValueSource::Document(string_of(s)),
            ConfValueSource::Default => ConfValueSource::Default,
        }
    }

    /// Whether the value is a default value.
    pub fn is_default(&self) -> (r: bool)
        ensures
            r == (self is Default),
    {
        match self {
            ConfValueSource::Default => true,
            _ => false,
        }
    }

    /// A copy of this source.
    pub fn copy(&self) -> (r: Self)
        ensures
            r == *self,
    {
        match self {
            ConfValueSource::Args => ConfValueSource::Args,
            ConfValueSource::Env(s) => ConfValueSource::Env(*s),
            ConfValueSource::Document(s) => ConfValueSource::Document(*s),
            ConfValueSource::Default => ConfValueSource::Default,
        }
    }
}

/// Why the current context is inside an enabled flattened-optional group: the group's struct
/// name and id prefix, and the option whose appearance enabled it, with its source.
pub struct FlattenedOptionalDebugInfo<'a> {
    pub struct_name: &'static str,
    pub id_prefix: String,
    pub option_appeared: &'a ProgramOption,
    pub value_source: ConfValueSource<&'a str>,
}

impl<'a> View for FlattenedOptionalDebugInfo<'a> {
    type V = DebugInfoView;

    open spec fn view(&self) -> DebugInfoView {
        DebugInfoView {
            struct_name: self.struct_name@,
            id_prefix: self.id_prefix@,
            option_appeared: (*self.option_appeared)@,
            value_source: self.value_source@,
        }
    }
}

impl<'a> FlattenedOptionalDebugInfo<'a> {
    /// A copy of this record.
    pub fn duplicate(&self) -> (r: Self)
        ensures
            r@ == self@,
    {
        FlattenedOptionalDebugInfo {
            struct_name: self.struct_name,
            id_prefix: self.id_prefix.clone(),
            option_appeared: self.option_appeared,
            value_source: self.value_source.copy(),
        }
    }

    /// The same record, owning its data.
    pub fn into_owned(&self) -> (r: OwnedFlattenedOptionalDebugInfo)
        ensures
            r@ == self@,
    {
        OwnedFlattenedOptionalDebugInfo {
            struct_name: string_of(self.struct_name),
            id_prefix: self.id_prefix.clone(),
            option_appeared: Box::new(self.option_appeared.duplicate()),
            value_source: self.value_source.copy().into_owned(),
        }
    }
}

/// The content of an optional debug record.
pub open spec fn opt_debug_view<'a>(d: Option<FlattenedOptionalDebugInfo<'a>>) -> Option<DebugInfoView> {
    match d {
        Some(i) => Some(i@),
        None => None,
    }
}

/// Whether an option can receive a value from the command line.
pub open spec fn view_has_args_source(o: ProgramOptionView) -> bool {
    o.short_form is Some || o.long_form is Some || o.is_positional
}

/// The first of these environment variables that is set, with its value.
pub open spec fn first_set_env(env: ParsedEnv, names: Seq<Seq<char>>) -> Option<(Seq<char>, Seq<u8>)>
    decreases names.len(),
{
    if names.len() == 0 {
        None
    } else {
        match env.lookup(names[0]) {
            Some(v) => Some((names[0], v)),
            None => first_set_env(env, names.drop_first()),
        }
    }
}

proof fn lemma_first_set_env_skip(env: ParsedEnv, names: Seq<Seq<char>>, i: int)
    requires
        0 <= i <= names.len(),
        forall|k: int| 0 <= k < i ==> env.lookup(#[trigger] names[k]) is None,
    ensures
        first_set_env(env, names) == first_set_env(env, names.skip(i)),
    decreases i,
{
    if i > 0 {
        assert(env.lookup(names[0]) is None);
        lemma_first_set_env_skip(env, names.drop_first(), i - 1);
        assert(names.drop_first().skip(i - 1) =~= names.skip(i));
    } else {
        assert(names.skip(0) =~= names);
    }
}

/// The first byte string of a list that is not UTF-8, if any.
pub open spec fn first_invalid_utf8(vs: Seq<Seq<u8>>) -> Option<Seq<u8>>
    decreases vs.len(),
{
    if vs.len() == 0 {
        None
    } else if !valid_utf8(vs[0]) {
        Some(vs[0])
    } else {
        first_invalid_utf8(vs.drop_first())
    }
}

/// `s` split at every occurrence of `d`, as `str::split` does: `n` delimiters give `n + 1`
/// pieces, some of them possibly empty.
pub open spec fn split_on(s: Seq<char>, d: char) -> Seq<Seq<char>>
    decreases s.len(),
{
    if s.len() == 0 {
        seq![Seq::<char>::empty()]
    } else {
        let rest = split_on(s.drop_last(), d);
        if s.last() == d {
            rest.push(Seq::empty())
        } else {
            rest.update(rest.len() - 1, rest.last().push(s.last()))
        }
    }
}

/// Splitting a text always gives at least one piece.
pub proof fn lemma_split_on_nonempty(s: Seq<char>, d: char)
    ensures
        split_on(s, d).len() >= 1,
    decreases s.len(),
{
    if s.len() > 0 {
        lemma_split_on_nonempty(s.drop_last(), d);
    }
}

/// The values of a repeat option read from the environment variable `name`: the text split
/// at the delimiter, if there is one, else the whole text; an error if it is not UTF-8.
pub open spec fn env_repeat_values(
    name: Seq<char>,
    b: Seq<u8>,
    o: ProgramOptionView,
    delim: Option<char>,
) -> Result<(ConfValueSource<Seq<char>>, Seq<Seq<char>>), InnerErrorView> {
    if valid_utf8(b) {
        let s = decode_utf8(b);
        Ok(
            (
                ConfValueSource::Env(name),
                match delim {
                    Some(d) => split_on(s, d),
                    None => seq![s],
                },
            ),
        )
    } else {
        Err(InnerErrorView::InvalidUtf8Env(name, o, Some(b)))
    }
}

/// The invalid-UTF-8 message of value errors.
pub open spec fn invalid_utf8_message() -> Seq<char> {
    "Invalid UTF-8"@
}

/// The message of the error for a single-valued option given more than once on the command
/// line.
pub open spec fn repeated_switch_message() -> Seq<char> {
    "the argument cannot be used multiple times"@
}

/// The value of a flag read from the environment variable `name`, holding `b`: the text read
/// as a boolean, or an error if it is not UTF-8, which shows the bytes unless the option is
/// secret.
pub open spec fn flag_env_value(name: Seq<char>, b: Seq<u8>, o: ProgramOptionView) -> Result<
    (ConfValueSource<Seq<char>>, bool),
    InnerErrorView,
> {
    if valid_utf8(b) {
        Ok((ConfValueSource::Env(name), spec_str_to_bool(decode_utf8(b))))
    } else {
        Err(
            InnerErrorView::InvalidUtf8Env(
                name,
                o,
                if o.secret == Some(true) {
                    None
                } else {
                    Some(b)
                },
            ),
        )
    }
}

/// A prefix followed by an id, as a string.
pub open spec fn join_id(prefix: Seq<char>, id: Seq<char>) -> Seq<char> {
    prefix + id
}

/// Stores everything needed to find the value of a program option of a (possibly flattened)
/// structure: the parsed command line, the environment, the id prefix of the flattenings
/// entered so far, and why a flattened-optional group is enabled, if one is.
pub struct ConfContext<'a> {
    args: &'a ParsedArgs,
    env: &'a ParsedEnv,
    id_prefix: String,
    flattened_optional_debug_info: Option<FlattenedOptionalDebugInfo<'a>>,
}

impl<'a> ConfContext<'a> {
    /// The parsed command line of this context.
    pub closed spec fn spec_args(&self) -> ParsedArgs {
        *self.args
    }

    /// The environment of this context.
    pub closed spec fn spec_env(&self) -> ParsedEnv {
        *self.env
    }

    /// The id prefix of this context.
    pub closed spec fn spec_id_prefix(&self) -> Seq<char> {
        self.id_prefix@
    }

    /// Why this context is inside an enabled flattened-optional group, if it is.
    pub closed spec fn spec_debug_info(&self) -> Option<DebugInfoView> {
        opt_debug_view(self.flattened_optional_debug_info)
    }

    /// The absolute id of the option with this relative id.
    pub open spec fn full_id(&self, id: Seq<char>) -> Seq<char> {
        self.spec_id_prefix() + id
    }

    /// Whether there is an option with this relative id.
    pub open spec fn knows(&self, id: Seq<char>) -> bool {
        self.spec_args().has_option(self.full_id(id))
    }

    /// The option with this relative id.
    pub open spec fn opt(&self, id: Seq<char>) -> ProgramOptionView {
        self.spec_args().option(self.full_id(id))
    }

    /// The raw value of a single-valued option and its source: the first command-line value,
    /// else the env form's value, else the first env alias that is set, else the default
    /// value, else none.
    pub open spec fn os_value(&self, id: Seq<char>) -> Option<(ConfValueSource<Seq<char>>, Seq<u8>)> {
        let o = self.opt(id);
        let env = self.spec_env();
        let cli = self.spec_args().cli_values(self.full_id(id));
        if view_has_args_source(o) && cli is Some && cli.unwrap().len() > 0 {
            Some((ConfValueSource::Args, cli.unwrap()[0]))
        } else if o.env_form is Some && env.lookup(o.env_form.unwrap()) is Some {
            Some((ConfValueSource::Env(o.env_form.unwrap()), env.lookup(o.env_form.unwrap()).unwrap()))
        } else if first_set_env(env, o.env_aliases) is Some {
            let (a, v) = first_set_env(env, o.env_aliases).unwrap();
            Some((ConfValueSource::Env(a), v))
        } else if o.default_value is Some {
            Some((ConfValueSource::Default, encode_utf8(o.default_value.unwrap())))
        } else {
            None
        }
    }

    /// The raw value of a single-valued option and its source (see `os_value`), or an
    /// invalid-value error, showing the second value, if the option was given more than once
    /// on the command line.
    pub open spec fn os_result(&self, id: Seq<char>) -> Result<
        Option<(ConfValueSource<Seq<char>>, Seq<u8>)>,
        InnerErrorView,
    > {
        let o = self.opt(id);
        let cli = self.spec_args().cli_values(self.full_id(id));
        if view_has_args_source(o) && cli is Some && cli.unwrap().len() > 1 {
            Err(
                InnerErrorView::InvalidParameterValue(
                    ConfValueSource::Args,
                    utf8_lossy(cli.unwrap()[1]),
                    o,
                    repeated_switch_message(),
                ),
            )
        } else {
            Ok(self.os_value(id))
        }
    }

    /// The text value of a single-valued option and its source, or an error if it was given
    /// more than once on the command line or the raw value is not UTF-8.
    pub open spec fn string_value(&self, id: Seq<char>) -> Result<
        Option<(ConfValueSource<Seq<char>>, Seq<char>)>,
        InnerErrorView,
    > {
        match self.os_result(id) {
            Err(e) => Err(e),
            Ok(None) => Ok(None),
            Ok(Some((src, b))) => if valid_utf8(b) {
                Ok(Some((src, decode_utf8(b))))
            } else {
                Err(
                    InnerErrorView::InvalidParameterValue(
                        src,
                        utf8_lossy(b),
                        self.opt(id),
                        invalid_utf8_message(),
                    ),
                )
            },
        }
    }

    /// The value of a flag and its source: true if it appeared on the command line, else
    /// the env form's value read as a boolean, else the value of the first env alias that is
    /// set, else false by default. An env value that is not UTF-8 is an error, which shows the
    /// bytes unless the option is secret.
    pub open spec fn boolean_value(&self, id: Seq<char>) -> Result<
        (ConfValueSource<Seq<char>>, bool),
        InnerErrorView,
    > {
        let o = self.opt(id);
        let env = self.spec_env();
        if self.spec_args().cli_values(self.full_id(id)) is Some {
            Ok((ConfValueSource::Args, true))
        } else if o.env_form is Some && env.lookup(o.env_form.unwrap()) is Some {
            let e = o.env_form.unwrap();
            flag_env_value(e, env.lookup(e).unwrap(), o)
        } else if first_set_env(env, o.env_aliases) is Some {
            let (a, b) = first_set_env(env, o.env_aliases).unwrap();
            flag_env_value(a, b, o)
        } else {
            Ok((ConfValueSource::Default, false))
        }
    }

    /// The text values of a repeat option and their source: all command-line values, else
    /// the env form's value, else the first env alias that is set (an env value is split at
    /// the delimiter if there is one), else none by default.
    pub open spec fn repeat_value(&self, id: Seq<char>, delim: Option<char>) -> Result<
        (ConfValueSource<Seq<char>>, Seq<Seq<char>>),
        InnerErrorView,
    > {
        let o = self.opt(id);
        let env = self.spec_env();
        let cli = self.spec_args().cli_values(self.full_id(id));
        if view_has_args_source(o) && cli is Some {
            match first_invalid_utf8(cli.unwrap()) {
                Some(b) => Err(
                    InnerErrorView::InvalidParameterValue(
                        ConfValueSource::Args,
                        utf8_lossy(b),
                        o,
                        invalid_utf8_message(),
                    ),
                ),
                None => Ok(
                    (
                        ConfValueSource::Args,
                        cli.unwrap().map_values(|b: Seq<u8>| decode_utf8(b)),
                    ),
                ),
            }
        } else if o.env_form is Some && env.lookup(o.env_form.unwrap()) is Some {
            env_repeat_values(o.env_form.unwrap(), env.lookup(o.env_form.unwrap()).unwrap(), o, delim)
        } else if first_set_env(env, o.env_aliases) is Some {
            let (a, b) = first_set_env(env, o.env_aliases).unwrap();
            env_repeat_values(a, b, o, delim)
        } else {
            Ok((ConfValueSource::Default, Seq::empty()))
        }
    }

    /// The raw values of a repeat option and their source: all command-line values, else
    /// the env form's value, else the first env alias that is set, else none by default.
    pub open spec fn repeat_os_value(&self, id: Seq<char>) -> (ConfValueSource<Seq<char>>, Seq<Seq<u8>>) {
        let o = self.opt(id);
        let env = self.spec_env();
        let cli = self.spec_args().cli_values(self.full_id(id));
        if view_has_args_source(o) && cli is Some {
            (ConfValueSource::Args, cli.unwrap())
        } else if o.env_form is Some && env.lookup(o.env_form.unwrap()) is Some {
            (ConfValueSource::Env(o.env_form.unwrap()), seq![env.lookup(o.env_form.unwrap()).unwrap()])
        } else if first_set_env(env, o.env_aliases) is Some {
            let (a, b) = first_set_env(env, o.env_aliases).unwrap();
            (ConfValueSource::Env(a), seq![b])
        } else {
            (ConfValueSource::Default, Seq::empty())
        }
    }

    /// The source of an option's value, by its parse type, if it has a value.
    pub open spec fn value_source(&self, id: Seq<char>) -> Result<
        Option<ConfValueSource<Seq<char>>>,
        InnerErrorView,
    > {
        match self.opt(id).parse_type {
            ParseType::Flag => match self.boolean_value(id) {
                Ok((src, _)) => Ok(Some(src)),
                Err(e) => Err(e),
            },
            ParseType::Parameter => match self.string_value(id) {
                Ok(Some((src, _))) => Ok(Some(src)),
                Ok(None) => Ok(None),
                Err(e) => Err(e),
            },
            ParseType::Repeat => match self.repeat_value(id, None) {
                Ok((src, _)) => Ok(Some(src)),
                Err(e) => Err(e),
            },
        }
    }

    /// The source of an option's value if it appeared, i.e. has a value that is not a
    /// default value.
    pub open spec fn appears(&self, id: Seq<char>) -> Result<
        Option<ConfValueSource<Seq<char>>>,
        InnerErrorView,
    > {
        match self.value_source(id) {
            Ok(Some(ConfValueSource::Default)) => Ok(None),
            other => other,
        }
    }

    /// A context for the whole command line and environment, with no prefix.
    pub fn new(args: &'a ParsedArgs, env: &'a ParsedEnv) -> (r: Self)
        ensures
            r.spec_args() == *args,
            r.spec_env() == *env,
            r.spec_id_prefix() == Seq::<char>::empty(),
            r.spec_debug_info() is None,
    {
        ConfContext { args, env, id_prefix: String::new(), flattened_optional_debug_info: None }
    }

    fn full(&self, id: &str) -> (r: String)
        ensures
            r@ == self.full_id(id@),
    {
        concat_str(self.id_prefix.as_str(), id)
    }

    fn lookup_option(&self, id: &str) -> (r: &'a ProgramOption)
        requires
            self.knows(id@),
        ensures
            r@ == self.opt(id@),
    {
        let args: &'a ParsedArgs = self.args;
        let full = self.full(id);
        match args.find_option(full.as_str()) {
            Some(i) => &args.options[i],
            None => {
                assert(false);
                &args.options[0]
            },
        }
    }

    fn env_value(&self, name: &str) -> (r: Option<&'a Vec<u8>>)
        ensures
            match r {
                Some(v) => self.spec_env().lookup(name@) == Some(v@),
                None => self.spec_env().lookup(name@) is None,
            },
    {
        let env: &'a ParsedEnv = self.env;
        env.get(name)
    }

    fn first_alias_set(&self, opt: &'a ProgramOption) -> (r: Option<(&'a str, &'a Vec<u8>)>)
        ensures
            match r {
                Some((a, v)) => first_set_env(self.spec_env(), strs_view(opt.env_aliases@))
                    == Some((a@, v@)),
                None => first_set_env(self.spec_env(), strs_view(opt.env_aliases@)) is None,
            },
    {
        let ghost names = strs_view(opt.env_aliases@);
        let n = opt.env_aliases.len();
        let mut i: usize = 0;
        while i < n
            invariant
                n == opt.env_aliases@.len(),
                names == strs_view(opt.env_aliases@),
                i <= n,
                forall|k: int| 0 <= k < i ==> self.spec_env().lookup(#[trigger] names[k]) is None,
            decreases n - i,
        {
            let alias: &'a str = opt.env_aliases[i].as_str();
            match self.env_value(alias) {
                Some(v) => {
                    proof {
                        lemma_first_set_env_skip(self.spec_env(), names, i as int);
                        assert(names.skip(i as int)[0] == alias@);
                    }
                    return Some((alias, v));
                },
                None => {},
            }
            i = i + 1;
        }
        proof {
            lemma_first_set_env_skip(self.spec_env(), names, n as int);
        }
        None
    }

    /// The env form's value of an option as text, if it is set; an error if it is not UTF-8,
    /// which shows the bytes unless the option is secret.
    fn get_env(&self, env_name: &'a str, opt: &'a ProgramOption) -> (r: Result<Option<&'a str>, InnerError>)
        ensures
            match self.spec_env().lookup(env_name@) {
                None => r matches Ok(None),
                Some(b) => if valid_utf8(b) {
                    r matches Ok(Some(s)) && s@ == decode_utf8(b)
                } else {
                    r matches Err(e) && e@ == InnerErrorView::InvalidUtf8Env(
                        env_name@,
                        opt@,
                        if opt@.secret == Some(true) {
                            None
                        } else {
                            Some(b)
                        },
                    )
                },
            },
    {
        match self.env_value(env_name) {
            Some(v) => match utf8_str(v.as_slice()) {
                Some(s) => Ok(Some(s)),
                None => {
                    if opt.is_secret() {
                        Err(InnerError::invalid_utf8_env(env_name, opt, None))
                    } else {
                        Err(InnerError::invalid_utf8_env(env_name, opt, Some(v)))
                    }
                },
            },
            None => Ok(None),
        }
    }
}


impl<'a> ConfContext<'a> {
    /// Whether a flag is set, and where that came from: true if it appeared on the command
    /// line, else the env form's value read as a boolean (see `str_to_bool`), else that of
    /// the first env alias that is set, else false.
    pub fn get_boolean_opt(&self, id: &str) -> (r: Result<(ConfValueSource<&'a str>, bool), InnerError>)
        requires
            self.knows(id@),
        ensures
            match r {
                Ok((src, b)) => Ok((src@, b)),
                Err(e) => Err(e@),
            } == self.boolean_value(id@),
    {
        let args: &'a ParsedArgs = self.args;
        let full = self.full(id);
        if args.get_values(full.as_str()).is_some() {
            return Ok((ConfValueSource::Args, true));
        }
        let opt = self.lookup_option(id);
        if let Some(env_form) = &opt.env_form {
            let env_form: &'a str = env_form.as_str();
            match self.get_env(env_form, opt) {
                Err(e) => {
                    return Err(e);
                },
                Ok(Some(val)) => {
                    return Ok((ConfValueSource::Env(env_form), str_to_bool(val)));
                },
                Ok(None) => {},
            }
        }
        if let Some((alias, v)) = self.first_alias_set(opt) {
            return match utf8_str(v.as_slice()) {
                Some(val) => Ok((ConfValueSource::Env(alias), str_to_bool(val))),
                None => {
                    if opt.is_secret() {
                        Err(InnerError::invalid_utf8_env(alias, opt, None))
                    } else {
                        Err(InnerError::invalid_utf8_env(alias, opt, Some(v)))
                    }
                },
            };
        }
        Ok((ConfValueSource::Default, false))
    }

    /// The raw value of a single-valued option, with its source, and the option. The command
    /// line shadows the env form, which shadows the env aliases (the first one set wins),
    /// which shadow the default value. An error if the option was given more than once on
    /// the command line.
    pub fn get_osstring_opt(&self, id: &str) -> (r: Result<
        (Option<(ConfValueSource<&'a str>, &'a [u8])>, &'a ProgramOption),
        InnerError,
    >)
        requires
            self.knows(id@),
        ensures
            match r {
                Ok((v, o)) => o@ == self.opt(id@) && self.os_result(id@) == Ok::<
                    Option<(ConfValueSource<Seq<char>>, Seq<u8>)>,
                    InnerErrorView,
                >(
                    match v {
                        Some((src, b)) => Some((src@, b@)),
                        None => None,
                    },
                ),
                Err(e) => self.os_result(id@) == Err::<
                    Option<(ConfValueSource<Seq<char>>, Seq<u8>)>,
                    InnerErrorView,
                >(e@),
            },
    {
        let args: &'a ParsedArgs = self.args;
        let opt = self.lookup_option(id);
        let full = self.full(id);
        if opt.has_args_source() {
            if let Some(vals) = args.get_values(full.as_str()) {
                if vals.len() > 1 {
                    return Err(
                        InnerError::invalid_value_os(
                            ConfValueSource::Args,
                            vals[1].as_slice(),
                            opt,
                            "the argument cannot be used multiple times",
                        ),
                    );
                }
                if vals.len() > 0 {
                    return Ok((Some((ConfValueSource::Args, vals[0].as_slice())), opt));
                }
            }
        }
        if let Some(env_form) = &opt.env_form {
            let env_form: &'a str = env_form.as_str();
            if let Some(val) = self.env_value(env_form) {
                return Ok((Some((ConfValueSource::Env(env_form), val.as_slice())), opt));
            }
        }
        if let Some((alias, val)) = self.first_alias_set(opt) {
            return Ok((Some((ConfValueSource::Env(alias), val.as_slice())), opt));
        }
        if let Some(default_val) = &opt.default_value {
            let d: &'a str = default_val.as_str();
            return Ok((Some((ConfValueSource::Default, d.as_bytes())), opt));
        }
        Ok((None, opt))
    }

    /// The text value of a single-valued option, with its source, and the option, by the
    /// same precedence as `get_osstring_opt`; an invalid-value error if the value is not
    /// UTF-8.
    pub fn get_string_opt(&self, id: &str) -> (r: Result<
        (Option<(ConfValueSource<&'a str>, &'a str)>, &'a ProgramOption),
        InnerError,
    >)
        requires
            self.knows(id@),
        ensures
            match r {
                Ok((v, _)) => Ok(
                    match v {
                        Some((src, s)) => Some((src@, s@)),
                        None => None,
                    },
                ),
                Err(e) => Err(e@),
            } == self.string_value(id@),
            r matches Ok((_, o)) ==> o@ == self.opt(id@),
    {
        let (maybe_val, opt) = match self.get_osstring_opt(id) {
            Ok(x) => x,
            Err(e) => {
                return Err(e);
            },
        };
        match maybe_val {
            Some((value_source, val_os)) => match utf8_str(val_os) {
                Some(s) => Ok((Some((value_source, s)), opt)),
                None => Err(
                    InnerError::invalid_value_os(value_source.copy(), val_os, opt, "Invalid UTF-8"),
                ),
            },
            None => Ok((None, opt)),
        }
    }

    /// The raw values of a repeat option, with their source, and the option: all command-line
    /// values, else the env form's value, else the first env alias that is set, each as one
    /// value, else none.
    pub fn get_repeat_osstring_opt(&self, id: &str) -> (r: Result<
        (ConfValueSource<&'a str>, Vec<&'a [u8]>, &'a ProgramOption),
        InnerError,
    >)
        requires
            self.knows(id@),
        ensures
            r matches Ok((src, vals, o)) && o@ == self.opt(id@) && (src@, vals@.map_values(
                |b: &[u8]| b@,
            )) == self.repeat_os_value(id@),
    {
        let args: &'a ParsedArgs = self.args;
        let opt = self.lookup_option(id);
        let full = self.full(id);
        if opt.has_args_source() {
            if let Some(vals) = args.get_values(full.as_str()) {
                let mut out: Vec<&'a [u8]> = Vec::new();
                let n = vals.len();
                let mut i: usize = 0;
                while i < n
                    invariant
                        n == vals@.len(),
                        i <= n,
                        out@.len() == i,
                        forall|k: int| 0 <= k < i ==> #[trigger] out@[k]@ == vals@[k]@,
                    decreases n - i,
                {
                    out.push(vals[i].as_slice());
                    i = i + 1;
                }
                assert(out@.map_values(|b: &[u8]| b@) =~= vals@.map_values(|b: Vec<u8>| b@));
                return Ok((ConfValueSource::Args, out, opt));
            }
        }
        if let Some(env_form) = &opt.env_form {
            let env_form: &'a str = env_form.as_str();
            if let Some(val) = self.env_value(env_form) {
                let out: Vec<&'a [u8]> = vec![val.as_slice()];
                assert(out@.map_values(|b: &[u8]| b@) =~= seq![val@]);
                return Ok((ConfValueSource::Env(env_form), out, opt));
            }
        }
        if let Some((alias, val)) = self.first_alias_set(opt) {
            let out: Vec<&'a [u8]> = vec![val.as_slice()];
            assert(out@.map_values(|b: &[u8]| b@) =~= seq![val@]);
            return Ok((ConfValueSource::Env(alias), out, opt));
        }
        let out: Vec<&'a [u8]> = Vec::new();
        assert(out@.map_values(|b: &[u8]| b@) =~= Seq::<Seq<u8>>::empty());
        Ok((ConfValueSource::Default, out, opt))
    }
}

/// Splits `s` at every occurrence of `d` (std `str::split` with a character pattern).
pub fn split_str<'b>(s: &'b str, d: char) -> (r: Vec<&'b str>)
    ensures
        r@.map_values(|p: &str| p@) == split_on(s@, d),
{
    let n = s.unicode_len();
    let mut out: Vec<&'b str> = Vec::new();
    let mut start: usize = 0;
    let mut i: usize = 0;
    assert(s@.take(0) =~= Seq::<char>::empty());
    assert(out@.map_values(|p: &str| p@).push(s@.subrange(0, 0)) =~= seq![Seq::<char>::empty()]);
    while i < n
        invariant
            n == s@.len(),
            start <= i <= n,
            out@.map_values(|p: &str| p@).push(s@.subrange(start as int, i as int)) == split_on(
                s@.take(i as int),
                d,
            ),
        decreases n - i,
    {
        let c = s.get_char(i);
        let ghost prev = split_on(s@.take(i as int), d);
        assert(s@.take(i + 1).drop_last() =~= s@.take(i as int));
        assert(s@.take(i + 1).last() == c);
        if c == d {
            let ghost before = out@.map_values(|p: &str| p@);
            out.push(s.substring_char(start, i));
            assert(out@.map_values(|p: &str| p@) =~= before.push(s@.subrange(start as int, i as int)));
            start = i + 1;
            assert(s@.subrange(start as int, i + 1) =~= Seq::<char>::empty());
        } else {
            assert(s@.subrange(start as int, i + 1) =~= s@.subrange(start as int, i as int).push(c));
            assert(out@.map_values(|p: &str| p@).push(s@.subrange(start as int, i + 1)) =~= prev.update(
                prev.len() - 1,
                prev.last().push(c),
            ));
        }
        i = i + 1;
    }
    assert(s@.take(n as int) =~= s@);
    let ghost before = out@.map_values(|p: &str| p@);
    out.push(s.substring_char(start, n));
    assert(out@.map_values(|p: &str| p@) =~= before.push(s@.subrange(start as int, n as int)));
    out
}


proof fn lemma_first_invalid_skip(vs: Seq<Seq<u8>>, i: int)
    requires
        0 <= i <= vs.len(),
        forall|k: int| 0 <= k < i ==> valid_utf8(#[trigger] vs[k]),
    ensures
        first_invalid_utf8(vs) == first_invalid_utf8(vs.skip(i)),
    decreases i,
{
    if i > 0 {
        assert(valid_utf8(vs[0]));
        lemma_first_invalid_skip(vs.drop_first(), i - 1);
        assert(vs.drop_first().skip(i - 1) =~= vs.skip(i));
    } else {
        assert(vs.skip(0) =~= vs);
    }
}

impl<'a> ConfContext<'a> {
    fn env_repeat(&self, name: &'a str, val: &'a Vec<u8>, opt: &'a ProgramOption, delim: Option<char>) -> (r: Result<
        (ConfValueSource<&'a str>, Vec<&'a str>),
        InnerError,
    >)
        ensures
            match r {
                Ok((src, v)) => Ok((src@, v@.map_values(|p: &str| p@))),
                Err(e) => Err(e@),
            } == env_repeat_values(name@, val@, opt@, delim),
    {
        match utf8_str(val.as_slice()) {
            Some(s) => {
                let pieces = match delim {
                    Some(d) => split_str(s, d),
                    None => {
                        let v: Vec<&'a str> = vec![s];
                        assert(v@.map_values(|p: &str| p@) =~= seq![s@]);
                        v
                    },
                };
                Ok((ConfValueSource::Env(name), pieces))
            },
            None => Err(InnerError::invalid_utf8_env(name, opt, Some(val))),
        }
    }

    /// The text values of a repeat option, with their source, and the option: all
    /// command-line values (an invalid-value error if one is not UTF-8), else the env form's
    /// value, else the first env alias that is set, split at `env_delimiter` if there is one
    /// (an error if the value is not UTF-8), else none.
    pub fn get_repeat_opt(&self, id: &str, env_delimiter: Option<char>) -> (r: Result<
        (ConfValueSource<&'a str>, Vec<&'a str>, &'a ProgramOption),
        InnerError,
    >)
        requires
            self.knows(id@),
        ensures
            match r {
                Ok((src, v, _)) => Ok((src@, v@.map_values(|p: &str| p@))),
                Err(e) => Err(e@),
            } == self.repeat_value(id@, env_delimiter),
            r matches Ok((_, _, o)) ==> o@ == self.opt(id@),
    {
        let args: &'a ParsedArgs = self.args;
        let opt = self.lookup_option(id);
        let full = self.full(id);
        if opt.has_args_source() {
            if let Some(vals) = args.get_values(full.as_str()) {
                let ghost vs = vals@.map_values(|b: Vec<u8>| b@);
                let mut out: Vec<&'a str> = Vec::new();
                let n = vals.len();
                let mut i: usize = 0;
                while i < n
                    invariant
                        n == vals@.len(),
                        vs == vals@.map_values(|b: Vec<u8>| b@),
                        opt@ == self.opt(id@),
                        view_has_args_source(opt@),
                        self.spec_args().cli_values(self.full_id(id@)) == Some(vs),
                        i <= n,
                        out@.len() == i,
                        forall|k: int| 0 <= k < i ==> valid_utf8(#[trigger] vs[k]),
                        forall|k: int| 0 <= k < i ==> #[trigger] out@[k]@ == decode_utf8(vs[k]),
                    decreases n - i,
                {
                    match utf8_str(vals[i].as_slice()) {
                        Some(s) => {
                            out.push(s);
                        },
                        None => {
                            proof {
                                lemma_first_invalid_skip(vs, i as int);
                                assert(vs[i as int] == vals@[i as int]@);
                                assert(vs.skip(i as int)[0] == vs[i as int]);
                                assert(vs.skip(i as int).len() > 0);
                                assert(first_invalid_utf8(vs) == Some(vs[i as int]));
                            }
                            return Err(
                                InnerError::invalid_value_os(
                                    ConfValueSource::Args,
                                    vals[i].as_slice(),
                                    opt,
                                    "Invalid UTF-8",
                                ),
                            );
                        },
                    }
                    i = i + 1;
                }
                proof {
                    lemma_first_invalid_skip(vs, n as int);
                    assert(vs.skip(n as int) =~= Seq::<Seq<u8>>::empty());
                }
                assert(out@.map_values(|p: &str| p@) =~= vs.map_values(|b: Seq<u8>| decode_utf8(b)));
                return Ok((ConfValueSource::Args, out, opt));
            }
        }
        if let Some(env_form) = &opt.env_form {
            let env_form: &'a str = env_form.as_str();
            if let Some(val) = self.env_value(env_form) {
                return match self.env_repeat(env_form, val, opt, env_delimiter) {
                    Ok((src, v)) => Ok((src, v, opt)),
                    Err(e) => Err(e),
                };
            }
        }
        if let Some((alias, val)) = self.first_alias_set(opt) {
            return match self.env_repeat(alias, val, opt, env_delimiter) {
                Ok((src, v)) => Ok((src, v, opt)),
                Err(e) => Err(e),
            };
        }
        let out: Vec<&'a str> = Vec::new();
        assert(out@.map_values(|p: &str| p@) =~= Seq::<Seq<char>>::empty());
        Ok((ConfValueSource::Default, out, opt))
    }

    /// The source of an option's value, by its parse type, if it has a value.
    pub fn get_value_source(&self, id: &str) -> (r: Result<Option<ConfValueSource<&'a str>>, InnerError>)
        requires
            self.knows(id@),
        ensures
            match r {
                Ok(Some(src)) => Ok(Some(src@)),
                Ok(None) => Ok(None),
                Err(e) => Err(e@),
            } == self.value_source(id@),
    {
        let opt = self.lookup_option(id);
        match opt.parse_type {
            ParseType::Flag => match self.get_boolean_opt(id) {
                Ok((src, _)) => Ok(Some(src)),
                Err(e) => Err(e),
            },
            ParseType::Parameter => match self.get_string_opt(id) {
                Ok((Some((src, _)), _)) => Ok(Some(src)),
                Ok((None, _)) => Ok(None),
                Err(e) => Err(e),
            },
            ParseType::Repeat => match self.get_repeat_opt(id, None) {
                Ok((src, _, _)) => Ok(Some(src)),
                Err(e) => Err(e),
            },
        }
    }

    /// Whether an option appears on the command line or in the environment: its source if
    /// it has a value that is not a default value.
    pub fn option_appears(&self, id: &str) -> (r: Result<Option<ConfValueSource<&'a str>>, InnerError>)
        requires
            self.knows(id@),
        ensures
            match r {
                Ok(Some(src)) => Ok(Some(src@)),
                Ok(None) => Ok(None),
                Err(e) => Err(e@),
            } == self.appears(id@),
    {
        match self.get_value_source(id) {
            Ok(Some(ConfValueSource::Default)) => Ok(None),
            other => other,
        }
    }

    /// A context for a flattened substructure: the same command line, environment and
    /// debug record, with `sub_id_prefix` appended to the id prefix.
    pub fn for_flattened(&self, sub_id_prefix: &str) -> (r: ConfContext<'a>)
        ensures
            r.spec_args() == self.spec_args(),
            r.spec_env() == self.spec_env(),
            r.spec_id_prefix() == self.spec_id_prefix() + sub_id_prefix@,
            r.spec_debug_info() == self.spec_debug_info(),
    {
        ConfContext {
            args: self.args,
            env: self.env,
            id_prefix: concat_str(self.id_prefix.as_str(), sub_id_prefix),
            flattened_optional_debug_info: match &self.flattened_optional_debug_info {
                Some(d) => Some(d.duplicate()),
                None => None,
            },
        }
    }

    /// A context for a flattened-optional substructure which was enabled because the option
    /// `option_appeared_result.0` (relative to the substructure) appeared with source
    /// `option_appeared_result.1`. The record of why it was enabled is kept for error messages.
    pub fn for_flattened_optional(
        &self,
        sub_id_prefix: &str,
        struct_name: &'static str,
        option_appeared_result: (&str, ConfValueSource<&'a str>),
    ) -> (r: ConfContext<'a>)
        requires
            self.spec_args().has_option(
                self.spec_id_prefix() + sub_id_prefix@ + option_appeared_result.0@,
            ),
        ensures
            r.spec_args() == self.spec_args(),
            r.spec_env() == self.spec_env(),
            r.spec_id_prefix() == self.spec_id_prefix() + sub_id_prefix@,
            r.spec_debug_info() == Some(
                DebugInfoView {
                    struct_name: struct_name@,
                    id_prefix: self.spec_id_prefix() + sub_id_prefix@,
                    option_appeared: self.spec_args().option(
                        self.spec_id_prefix() + sub_id_prefix@ + option_appeared_result.0@,
                    ),
                    value_source: option_appeared_result.1@,
                },
            ),
    {
        let args: &'a ParsedArgs = self.args;
        let id_prefix = concat_str(self.id_prefix.as_str(), sub_id_prefix);
        let (relative_id, value_source) = option_appeared_result;
        let prefixed_id = concat_str(id_prefix.as_str(), relative_id);
        let option_appeared: &'a ProgramOption = match args.find_option(prefixed_id.as_str()) {
            Some(i) => &args.options[i],
            None => {
                assert(false);
                &args.options[0]
            },
        };
        let info = FlattenedOptionalDebugInfo {
            struct_name,
            id_prefix: id_prefix.clone(),
            option_appeared,
            value_source,
        };
        ConfContext {
            args: self.args,
            env: self.env,
            id_prefix,
            flattened_optional_debug_info: Some(info),
        }
    }

    /// A context for the subcommand found on the command line, if any, with its name: the
    /// subcommand's own parse result, with the same environment, prefix and debug record.
    pub fn for_subcommand(&self) -> (r: Option<(String, ConfContext<'a>)>)
        ensures
            match r {
                Some((name, ctx)) => self.spec_args().subcommand matches Some((n, sub)) && name@
                    == n@ && ctx.spec_args() == *sub && ctx.spec_env() == self.spec_env()
                    && ctx.spec_id_prefix() == self.spec_id_prefix() && ctx.spec_debug_info()
                    == self.spec_debug_info(),
                None => self.spec_args().subcommand is None,
            },
    {
        let args: &'a ParsedArgs = self.args;
        match args.get_subcommand() {
            Some((name, sub)) => Some(
                (
                    name,
                    ConfContext {
                        args: sub,
                        env: self.env,
                        id_prefix: self.id_prefix.clone(),
                        flattened_optional_debug_info: match &self.flattened_optional_debug_info {
                            Some(d) => Some(d.duplicate()),
                            None => None,
                        },
                    },
                ),
            ),
            None => None,
        }
    }

    /// The id prefix of this context.
    pub fn get_id_prefix(&self) -> (r: &str)
        ensures
            r@ == self.spec_id_prefix(),
    {
        self.id_prefix.as_str()
    }

    fn owned_debug_info(&self) -> (r: Option<Box<OwnedFlattenedOptionalDebugInfo>>)
        ensures
            crate::error::debug_info_view(r) == self.spec_debug_info(),
    {
        match &self.flattened_optional_debug_info {
            Some(d) => Some(Box::new(d.into_owned())),
            None => None,
        }
    }

    /// A missing-required-parameter error for this option, with the reason it is required
    /// if this context is inside an enabled flattened-optional group.
    pub fn missing_required_parameter_error(&self, opt: &ProgramOption) -> (r: InnerError)
        ensures
            r@ == InnerErrorView::MissingRequiredParameter(opt@, self.spec_debug_info()),
    {
        InnerError::MissingRequiredParameter(Box::new(opt.duplicate()), self.owned_debug_info())
    }
}


/// The content of a flattened-field entry of a too-many-arguments report: the field name, and
/// the option that appeared in it (relative to the field) with its source, if one did.
pub open spec fn flattened_entry_view<'a, 'b>(
    p: (&'b str, Option<(&'b str, ConfValueSource<&'a str>)>),
) -> (Seq<char>, Option<(Seq<char>, ConfValueSource<Seq<char>>)>) {
    (
        p.0@,
        match p.1 {
            Some((id, src)) => Some((id@, src@)),
            None => None,
        },
    )
}

impl<'a> ConfContext<'a> {
    /// The options among these relative ids that appeared (with a source other than a
    /// default value), with their sources, in order.
    pub open spec fn appearing_singles(&self, ids: Seq<Seq<char>>) -> Seq<
        (ProgramOptionView, ConfValueSource<Seq<char>>),
    >
        decreases ids.len(),
    {
        if ids.len() == 0 {
            Seq::empty()
        } else {
            let rest = self.appearing_singles(ids.drop_last());
            match self.value_source(ids.last()) {
                Ok(Some(src)) => if src is Default {
                    rest
                } else {
                    rest.push((self.opt(ids.last()), src))
                },
                _ => rest,
            }
        }
    }

    /// Whether the option named by a flattened-field entry exists, if the entry names one.
    pub open spec fn flattened_entry_known(
        &self,
        e: (Seq<char>, Option<(Seq<char>, ConfValueSource<Seq<char>>)>),
    ) -> bool {
        match e.1 {
            Some((id, _)) => self.spec_args().has_option(self.spec_id_prefix() + e.0 + "."@ + id),
            None => true,
        }
    }

    /// The flattened fields in which an option appeared, each with that option (found by its
    /// absolute id `prefix + field + "." + id`) and its source, in order.
    pub open spec fn appearing_flattened(
        &self,
        items: Seq<(Seq<char>, Option<(Seq<char>, ConfValueSource<Seq<char>>)>)>,
    ) -> Seq<(Seq<char>, ProgramOptionView, ConfValueSource<Seq<char>>)>
        decreases items.len(),
    {
        if items.len() == 0 {
            Seq::empty()
        } else {
            let rest = self.appearing_flattened(items.drop_last());
            let (field, maybe) = items.last();
            match maybe {
                Some((id, src)) => rest.push(
                    (
                        field,
                        self.spec_args().option(self.spec_id_prefix() + field + "."@ + id),
                        src,
                    ),
                ),
                None => rest,
            }
        }
    }

    /// A too-few-arguments error for a one-of constraint of the struct `struct_name`, listing
    /// the options of its single fields (by relative id) and its flattened fields, with the
    /// reason the constraint applies if this context is inside an enabled flattened-optional
    /// group.
    pub fn too_few_arguments_error(
        &self,
        struct_name: &'static str,
        constraint_single_option_ids: &[&str],
        constraint_flattened_ids: &[&str],
    ) -> (r: InnerError)
        requires
            forall|i: int|
                0 <= i < constraint_single_option_ids@.len() ==> self.knows(
                    #[trigger] constraint_single_option_ids@[i]@,
                ),
        ensures
            r@ == InnerErrorView::TooFewArguments(
                struct_name@,
                self.spec_id_prefix(),
                constraint_single_option_ids@.map_values(|id: &str| self.opt(id@)),
                constraint_flattened_ids@.map_values(|s: &str| s@),
                self.spec_debug_info(),
            ),
    {
        let mut opts: Vec<&'a ProgramOption> = Vec::new();
        let n = constraint_single_option_ids.len();
        let mut i: usize = 0;
        while i < n
            invariant
                n == constraint_single_option_ids@.len(),
                i <= n,
                opts@.len() == i,
                forall|k: int|
                    0 <= k < constraint_single_option_ids@.len() ==> self.knows(
                        #[trigger] constraint_single_option_ids@[k]@,
                    ),
                forall|k: int|
                    0 <= k < i ==> (*#[trigger] opts@[k])@ == self.opt(
                        constraint_single_option_ids@[k]@,
                    ),
            decreases n - i,
        {
            opts.push(self.lookup_option(constraint_single_option_ids[i]));
            i = i + 1;
        }
        assert(crate::error::option_refs_view(opts@) =~= constraint_single_option_ids@.map_values(
            |id: &str| self.opt(id@),
        ));
        InnerError::too_few_arguments(
            struct_name,
            self.id_prefix.as_str(),
            opts.as_slice(),
            constraint_flattened_ids,
            self.owned_debug_info(),
        )
    }

    /// A too-many-arguments error for an at-most-one constraint of the struct `struct_name`.
    /// Of the single fields (by relative id), only those whose option appeared (with a source
    /// other than a default value) are listed; of the flattened fields, only those for which
    /// an appearing option is given, with that option.
    pub fn too_many_arguments_error(
        &self,
        struct_name: &'static str,
        constraint_single_option_ids: &[&str],
        constraint_flattened_ids: Vec<(&str, Option<(&str, ConfValueSource<&'a str>)>)>,
    ) -> (r: InnerError)
        requires
            forall|i: int|
                0 <= i < constraint_single_option_ids@.len() ==> self.knows(
                    #[trigger] constraint_single_option_ids@[i]@,
                ) && self.value_source(constraint_single_option_ids@[i]@) is Ok,
            forall|i: int|
                0 <= i < constraint_flattened_ids@.len() ==> self.flattened_entry_known(
                    flattened_entry_view(#[trigger] constraint_flattened_ids@[i]),
                ),
        ensures
            r@ == InnerErrorView::TooManyArguments(
                struct_name@,
                self.spec_id_prefix(),
                self.appearing_singles(constraint_single_option_ids@.map_values(|id: &str| id@)),
                self.appearing_flattened(
                    constraint_flattened_ids@.map_values(
                        |p: (&str, Option<(&str, ConfValueSource<&'a str>)>)|
                            flattened_entry_view(p),
                    ),
                ),
            ),
    {
        let ghost ids = constraint_single_option_ids@.map_values(|id: &str| id@);
        let mut singles: Vec<(&'a ProgramOption, ConfValueSource<&'a str>)> = Vec::new();
        let n = constraint_single_option_ids.len();
        let mut i: usize = 0;
        while i < n
            invariant
                n == constraint_single_option_ids@.len(),
                ids == constraint_single_option_ids@.map_values(|id: &str| id@),
                i <= n,
                forall|k: int|
                    0 <= k < constraint_single_option_ids@.len() ==> self.knows(
                        #[trigger] constraint_single_option_ids@[k]@,
                    ) && self.value_source(constraint_single_option_ids@[k]@) is Ok,
                singles@.map_values(
                    |p: (&ProgramOption, ConfValueSource<&str>)| ((*p.0)@, p.1@),
                ) == self.appearing_singles(ids.take(i as int)),
            decreases n - i,
        {
            let id = constraint_single_option_ids[i];
            assert(ids.take(i + 1).drop_last() =~= ids.take(i as int));
            assert(ids.take(i + 1).last() == id@);
            let ghost before = singles@.map_values(
                |p: (&ProgramOption, ConfValueSource<&str>)| ((*p.0)@, p.1@),
            );
            let opt = self.lookup_option(id);
            match self.get_value_source(id) {
                Ok(Some(src)) => {
                    if !src.is_default() {
                        singles.push((opt, src));
                        assert(singles@.map_values(
                            |p: (&ProgramOption, ConfValueSource<&str>)| ((*p.0)@, p.1@),
                        ) =~= before.push((opt@, src@)));
                    }
                },
                Ok(None) => {},
                Err(_) => {
                    assert(false);
                },
            }
            i = i + 1;
        }
        assert(ids.take(n as int) =~= ids);
        let ghost items = constraint_flattened_ids@.map_values(
            |p: (&str, Option<(&str, ConfValueSource<&'a str>)>)| flattened_entry_view(p),
        );
        let args: &'a ParsedArgs = self.args;
        let mut flattened: Vec<(&str, &'a ProgramOption, ConfValueSource<&'a str>)> = Vec::new();
        let m = constraint_flattened_ids.len();
        let mut j: usize = 0;
        while j < m
            invariant
                m == constraint_flattened_ids@.len(),
                items == constraint_flattened_ids@.map_values(
                    |p: (&str, Option<(&str, ConfValueSource<&'a str>)>)| flattened_entry_view(p),
                ),
                j <= m,
                args == self.args,
                forall|k: int|
                    0 <= k < constraint_flattened_ids@.len() ==> self.flattened_entry_known(
                    flattened_entry_view(#[trigger] constraint_flattened_ids@[k]),
                ),
                flattened@.map_values(
                    |p: (&str, &ProgramOption, ConfValueSource<&str>)| (p.0@, (*p.1)@, p.2@),
                ) == self.appearing_flattened(items.take(j as int)),
            decreases m - j,
        {
            assert(items.take(j + 1).drop_last() =~= items.take(j as int));
            assert(items.take(j + 1).last() == flattened_entry_view(constraint_flattened_ids@[j as int]));
            let ghost before = flattened@.map_values(
                |p: (&str, &ProgramOption, ConfValueSource<&str>)| (p.0@, (*p.1)@, p.2@),
            );
            let (field, maybe) = &constraint_flattened_ids[j];
            match maybe {
                Some((id, src)) => {
                    let mut absolute = concat_str(self.id_prefix.as_str(), field);
                    absolute.append(".");
                    absolute.append(id);
                    let opt: &'a ProgramOption = match args.find_option(absolute.as_str()) {
                        Some(k) => &args.options[k],
                        None => {
                            assert(false);
                            &args.options[0]
                        },
                    };
                    flattened.push((*field, opt, src.copy()));
                    assert(flattened@.map_values(
                        |p: (&str, &ProgramOption, ConfValueSource<&str>)| (p.0@, (*p.1)@, p.2@),
                    ) =~= before.push((field@, opt@, src@)));
                },
                None => {},
            }
            j = j + 1;
        }
        assert(items.take(m as int) =~= items);
        InnerError::too_many_arguments(
            struct_name,
            self.id_prefix.as_str(),
            singles.as_slice(),
            flattened.as_slice(),
        )
    }
}


impl<'a> ConfContext<'a> {
    /// The first of these relative ids whose option appeared, with its source; an error if
    /// reading an earlier option fails first.
    pub open spec fn first_appearing(&self, ids: Seq<Seq<char>>) -> Result<
        Option<(int, ConfValueSource<Seq<char>>)>,
        InnerErrorView,
    >
        decreases ids.len(),
    {
        if ids.len() == 0 {
            Ok(None)
        } else {
            match self.appears(ids[0]) {
                Err(e) => Err(e),
                Ok(Some(src)) => Ok(Some((0, src))),
                Ok(None) => match self.first_appearing(ids.drop_first()) {
                    Ok(Some((i, src))) => Ok(Some((i + 1, src))),
                    other => other,
                },
            }
        }
    }

    /// Whether any of a structure's program options (by relative id) appeared, i.e. has a
    /// value that is not a default value: the position of the first one that did, with its
    /// source. This is what enables a flattened-optional structure, and what too-many-arguments
    /// errors report.
    pub fn any_program_options_appeared(&self, relative_ids: &[&str]) -> (r: Result<
        Option<(usize, ConfValueSource<&'a str>)>,
        InnerError,
    >)
        requires
            forall|i: int| 0 <= i < relative_ids@.len() ==> self.knows(#[trigger] relative_ids@[i]@),
        ensures
            match r {
                Ok(Some((i, src))) => Ok(Some((i as int, src@))),
                Ok(None) => Ok(None),
                Err(e) => Err(e@),
            } == self.first_appearing(relative_ids@.map_values(|id: &str| id@)),
    {
        let ghost ids = relative_ids@.map_values(|id: &str| id@);
        let n = relative_ids.len();
        let mut i: usize = 0;
        while i < n
            invariant
                n == relative_ids@.len(),
                ids == relative_ids@.map_values(|id: &str| id@),
                i <= n,
                forall|k: int| 0 <= k < relative_ids@.len() ==> self.knows(#[trigger] relative_ids@[k]@),
                forall|k: int| 0 <= k < i ==> #[trigger] self.appears(ids[k]) == Ok::<
                    Option<ConfValueSource<Seq<char>>>,
                    InnerErrorView,
                >(None),
            decreases n - i,
        {
            assert(ids[i as int] == relative_ids@[i as int]@);
            match self.option_appears(relative_ids[i]) {
                Err(e) => {
                    proof {
                        self.lemma_first_appearing_skip(ids, i as int);
                    }
                    return Err(e);
                },
                Ok(Some(src)) => {
                    proof {
                        self.lemma_first_appearing_skip(ids, i as int);
                    }
                    return Ok(Some((i, src)));
                },
                Ok(None) => {},
            }
            i = i + 1;
        }
        proof {
            self.lemma_first_appearing_skip(ids, n as int);
        }
        Ok(None)
    }

    proof fn lemma_first_appearing_skip(&self, ids: Seq<Seq<char>>, i: int)
        requires
            0 <= i <= ids.len(),
            forall|k: int| 0 <= k < i ==> #[trigger] self.appears(ids[k]) == Ok::<
                Option<ConfValueSource<Seq<char>>>,
                InnerErrorView,
            >(None),
        ensures
            match self.first_appearing(ids.skip(i)) {
                Ok(Some((j, src))) => self.first_appearing(ids) == Ok::<
                    Option<(int, ConfValueSource<Seq<char>>)>,
                    InnerErrorView,
                >(Some((j + i, src))),
                other => self.first_appearing(ids) == other,
            },
        decreases i,
    {
        if i == 0 {
            assert(ids.skip(0) =~= ids);
        } else {
            assert(self.appears(ids[0]) == Ok::<Option<ConfValueSource<Seq<char>>>, InnerErrorView>(None));
            self.lemma_first_appearing_skip(ids.drop_first(), i - 1);
            assert(ids.drop_first().skip(i - 1) =~= ids.skip(i));
        }
    }

    /// Whether a context reads the same values as this one would under the further prefix
    /// `sub`: the same command line and environment, and the prefix extended by `sub`.
    pub open spec fn reads_as_flattened(&self, flat: ConfContext<'a>, sub: Seq<char>) -> bool {
        &&& flat.spec_args() == self.spec_args()
        &&& flat.spec_env() == self.spec_env()
        &&& flat.spec_id_prefix() == self.spec_id_prefix() + sub
    }

    proof fn lemma_first_appearing_same_reads(c1: ConfContext<'a>, c2: ConfContext<'a>, ids: Seq<Seq<char>>)
        requires
            c1.spec_args() == c2.spec_args(),
            c1.spec_env() == c2.spec_env(),
            c1.spec_id_prefix() == c2.spec_id_prefix(),
        ensures
            c1.first_appearing(ids) == c2.first_appearing(ids),
        decreases ids.len(),
    {
        if ids.len() > 0 {
            assert(c1.appears(ids[0]) == c2.appears(ids[0]));
            Self::lemma_first_appearing_same_reads(c1, c2, ids.drop_first());
        }
    }

    /// The context of an optional flattened structure, whose options (by relative id) are
    /// `relative_ids`: none if none of them appeared (the field is `None`); else a context for
    /// the structure under `sub_id_prefix`, recording the first option that appeared, with its
    /// source, as the reason the group is enabled. An error reading whether an option appeared
    /// is returned.
    pub fn for_optional_group(
        &self,
        sub_id_prefix: &str,
        struct_name: &'static str,
        relative_ids: &[&str],
    ) -> (r: Result<Option<ConfContext<'a>>, InnerError>)
        requires
            forall|i: int|
                0 <= i < relative_ids@.len() ==> self.spec_args().has_option(
                    self.spec_id_prefix() + sub_id_prefix@ + (#[trigger] relative_ids@[i])@,
                ),
        ensures
            forall|flat: ConfContext<'a>| #[trigger]
                self.reads_as_flattened(flat, sub_id_prefix@) ==> match flat.first_appearing(
                    relative_ids@.map_values(|id: &str| id@),
                ) {
                    Err(e) => r matches Err(x) && x@ == e,
                    Ok(None) => r matches Ok(None),
                    Ok(Some((k, src))) => r matches Ok(Some(c)) && self.reads_as_flattened(
                        c,
                        sub_id_prefix@,
                    ) && c.spec_debug_info() == Some(
                        DebugInfoView {
                            struct_name: struct_name@,
                            id_prefix: self.spec_id_prefix() + sub_id_prefix@,
                            option_appeared: self.spec_args().option(
                                self.spec_id_prefix() + sub_id_prefix@ + relative_ids@[k]@,
                            ),
                            value_source: src,
                        },
                    ),
                },
    {
        let ghost ids = relative_ids@.map_values(|id: &str| id@);
        let flat = self.for_flattened(sub_id_prefix);
        assert forall|i: int| 0 <= i < relative_ids@.len() implies flat.knows(
            #[trigger] relative_ids@[i]@,
        ) by {
            assert(self.spec_args().has_option(
                self.spec_id_prefix() + sub_id_prefix@ + relative_ids@[i]@,
            ));
        }
        let res = flat.any_program_options_appeared(relative_ids);
        proof {
            assert forall|other: ConfContext<'a>| #[trigger]
                self.reads_as_flattened(other, sub_id_prefix@) implies other.first_appearing(ids)
                == flat.first_appearing(ids) by {
                Self::lemma_first_appearing_same_reads(other, flat, ids);
            }
        }
        match res {
            Err(e) => Err(e),
            Ok(None) => Ok(None),
            Ok(Some((k, src))) => {
                proof {
                    lemma_first_appearing_index(flat, ids);
                }
                let id: &str = relative_ids[k];
                assert(self.spec_args().has_option(self.spec_id_prefix() + sub_id_prefix@ + id@));
                Ok(Some(self.for_flattened_optional(sub_id_prefix, struct_name, (id, src))))
            },
        }
    }
}

/// The position that `first_appearing` gives is one of the ids.
proof fn lemma_first_appearing_index<'a>(c: ConfContext<'a>, ids: Seq<Seq<char>>)
    ensures
        c.first_appearing(ids) matches Ok(Some((k, _))) ==> 0 <= k < ids.len(),
    decreases ids.len(),
{
    if ids.len() > 0 {
        lemma_first_appearing_index(c, ids.drop_first());
    }
}

} // verus!
