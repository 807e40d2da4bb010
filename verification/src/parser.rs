//! The command-line parser description: which arguments the command line accepts for a list of
//! program options, and the help text of each. Environment variables are not given to the
//! command-line parser; they are read by `ConfContext`, and only documented here.
use vstd::prelude::*;
use crate::parse_env::ParsedEnv;
use crate::program_option::{
    ParseType, ProgramOption, ProgramOptionView, clone_strings, current_env_value, spec_print,
    strs_view,
};
use crate::styles::HelpStyles;
use crate::text::string_of;

verus! {

/// Top-level parser configuration.
pub struct ParserConfig {
    /// An optional top-level about text.
    pub about: Option<&'static str>,
    /// The name of the binary.
    pub name: &'static str,
    /// Whether no help flag should be generated.
    pub no_help_flag: bool,
    /// Optional terminal styling of help text.
    pub styles: Option<HelpStyles>,
}

/// What a command-line argument does when it appears.
#[derive(Clone, Copy, Debug, PartialEq, Eq, Structural)]
pub enum ArgAction {
    /// Sets a flag to true.
    SetTrue,
    /// Stores one value.
    SetValue,
    /// Appends a value each time it appears.
    Append,
}

/// How a command-line argument's value is read.
#[derive(Clone, Copy, Debug, PartialEq, Eq, Structural)]
pub enum ValueParserKind {
    /// A boolean flag, where words like "false" and "no" read as false.
    Falsey,
    /// Raw bytes, not required to be UTF-8.
    OsString,
}

/// The description of one command-line argument.
pub struct ArgSpec {
    pub id: String,
    pub short: Option<char>,
    pub long: Option<String>,
    pub aliases: Vec<String>,
    pub help: Option<String>,
    pub action: ArgAction,
    pub allow_hyphen_values: bool,
    pub index: Option<usize>,
    pub one_or_more: bool,
    pub value_parser: ValueParserKind,
}

/// The content of an `ArgSpec`.
pub struct ArgSpecView {
    pub id: Seq<char>,
    pub short: Option<char>,
    pub long: Option<Seq<char>>,
    pub aliases: Seq<Seq<char>>,
    pub help: Option<Seq<char>>,
    pub action: ArgAction,
    pub allow_hyphen_values: bool,
    pub index: Option<usize>,
    pub one_or_more: bool,
    pub value_parser: ValueParserKind,
}

impl View for ArgSpec {
    type V = ArgSpecView;

    open spec fn view(&self) -> ArgSpecView {
        ArgSpecView {
            id: self.id@,
            short: self.short,
            long: crate::program_option::opt_view(self.long),
            aliases: strs_view(self.aliases@),
            help: crate::program_option::opt_view(self.help),
            action: self.action,
            allow_hyphen_values: self.allow_hyphen_values,
            index: self.index,
            one_or_more: self.one_or_more,
            value_parser: self.value_parser,
        }
    }
}

/// What a program option becomes on the command line: an argument, a paragraph of help for
/// an option read only from the environment, or nothing for an option that neither the
/// command line nor the environment can set.
pub enum MaybeArg {
    Arg(ArgSpec),
    EnvOnly(String),
    NotArgsOrEnv,
}

/// The content of a `MaybeArg`.
pub enum MaybeArgView {
    Arg(ArgSpecView),
    EnvOnly(Seq<char>),
    NotArgsOrEnv,
}

impl View for MaybeArg {
    type V = MaybeArgView;

    open spec fn view(&self) -> MaybeArgView {
        match self {
            MaybeArg::Arg(a) => MaybeArgView::Arg(a@),
            MaybeArg::EnvOnly(t) => MaybeArgView::EnvOnly(t@),
            MaybeArg::NotArgsOrEnv => MaybeArgView::NotArgsOrEnv,
        }
    }
}

/// The help line of one environment variable of an argument: with its current value, unless
/// the option is secret, whose value is never shown.
pub open spec fn arg_env_line(name: Seq<char>, env: ParsedEnv, secret: bool) -> Seq<char> {
    if secret {
        "\n[env "@ + name + "]"@
    } else {
        "\n[env "@ + name + "="@ + current_env_value(env, name) + "]"@
    }
}

/// The help lines of a list of environment variables (see `arg_env_line`).
pub open spec fn spec_env_help(names: Seq<Seq<char>>, env: ParsedEnv, secret: bool) -> Seq<char>
    decreases names.len(),
{
    if names.len() == 0 {
        Seq::empty()
    } else {
        spec_env_help(names.drop_last(), env, secret) + arg_env_line(names.last(), env, secret)
    }
}

/// The help text of an argument: its description, then a line for each environment variable
/// (with its current value unless the option is secret), a line showing the default (its help
/// text), and a secret tag.
pub open spec fn spec_help_text(o: ProgramOptionView, env: ParsedEnv) -> Seq<char> {
    (match o.description {
        Some(d) => d,
        None => Seq::empty(),
    }) + (match o.env_form {
        Some(e) => arg_env_line(e, env, o.secret == Some(true)),
        None => Seq::empty(),
    }) + spec_env_help(o.env_aliases, env, o.secret == Some(true)) + (match o.default_help_str {
        Some(d) => "\n[default: "@ + d + "]"@,
        None => Seq::empty(),
    }) + if o.secret == Some(true) {
        "\n[secret]"@
    } else {
        Seq::empty()
    }
}

/// A help text, or none if it is empty.
pub open spec fn help_or_none(t: Seq<char>) -> Option<Seq<char>> {
    if t.len() == 0 {
        None
    } else {
        Some(t)
    }
}

/// The argument of a positional option at this index.
pub open spec fn spec_positional_arg(o: ProgramOptionView, env: ParsedEnv, index: usize) -> ArgSpecView {
    ArgSpecView {
        id: o.id,
        short: None,
        long: None,
        aliases: Seq::empty(),
        help: help_or_none(spec_help_text(o, env)),
        action: if o.parse_type == ParseType::Repeat {
            ArgAction::Append
        } else {
            ArgAction::SetValue
        },
        allow_hyphen_values: o.allow_hyphen_values,
        index: Some(index),
        one_or_more: o.parse_type == ParseType::Repeat,
        value_parser: ValueParserKind::OsString,
    }
}

/// The argument of an option with a short or long switch.
pub open spec fn spec_switch_arg(o: ProgramOptionView, env: ParsedEnv) -> ArgSpecView {
    ArgSpecView {
        id: o.id,
        short: o.short_form,
        long: o.long_form,
        aliases: o.aliases,
        help: help_or_none(spec_help_text(o, env)),
        action: match o.parse_type {
            ParseType::Flag => ArgAction::SetTrue,
            ParseType::Parameter => ArgAction::SetValue,
            ParseType::Repeat => ArgAction::Append,
        },
        allow_hyphen_values: o.parse_type != ParseType::Flag && o.allow_hyphen_values,
        index: None,
        one_or_more: false,
        value_parser: if o.parse_type == ParseType::Flag {
            ValueParserKind::Falsey
        } else {
            ValueParserKind::OsString
        },
    }
}

/// What an option becomes on the command line. A positional option becomes an argument at
/// its index; an option without short or long switch is not a command-line argument (the
/// parser would make it positional): with an env form it is documented in the environment
/// section of the help, else not at all; any other option becomes a switch argument.
pub open spec fn spec_make_arg(o: ProgramOptionView, env: ParsedEnv, index: Option<usize>) -> MaybeArgView {
    if o.is_positional {
        MaybeArgView::Arg(spec_positional_arg(o, env, index.unwrap()))
    } else if o.short_form is None && o.long_form is None {
        if o.env_form is Some {
            MaybeArgView::EnvOnly(spec_print(o, Some(env)))
        } else {
            MaybeArgView::NotArgsOrEnv
        }
    } else {
        MaybeArgView::Arg(spec_switch_arg(o, env))
    }
}

/// Whether an option can be turned into command-line arguments without an internal error: a
/// positional option has an index and takes a value; an option that is neither on the
/// command line nor in the environment has a default, a document source, or is optional;
/// and a secret cannot be given a command-line switch.
pub open spec fn arg_ok(o: ProgramOptionView, index: Option<usize>) -> bool {
    if o.is_positional {
        index is Some && o.parse_type != ParseType::Flag
    } else if o.short_form is None && o.long_form is None {
        o.env_form is Some || o.default_value is Some || o.has_serde_source || !o.is_required
    } else {
        o.secret != Some(true)
    }
}

/// `arg_ok`.
fn arg_fits(o: &ProgramOption, index: Option<usize>) -> (r: bool)
    ensures
        r == arg_ok(o@, index),
{
    if o.is_positional {
        index.is_some() && o.parse_type != ParseType::Flag
    } else if o.short_form.is_none() && o.long_form.is_none() {
        o.env_form.is_some() || o.default_value.is_some() || o.has_serde_source || !o.is_required
    } else {
        o.secret != Some(true)
    }
}

fn append_env_help(out: &mut String, name: &str, env: &ParsedEnv, secret: bool)
    ensures
        final(out)@ == old(out)@ + arg_env_line(name@, *env, secret),
{
    out.append("\n[env ");
    out.append(name);
    if !secret {
        let cur = env.get_lossy_or_default(name);
        out.append("=");
        out.append(cur.as_str());
    }
    out.append("]");
}

/// The help text of an argument (see `spec_help_text`).
pub fn build_help_text(option: &ProgramOption, env: &ParsedEnv) -> (r: String)
    ensures
        r@ == spec_help_text(option@, *env),
{
    let mut help_text = match &option.description {
        Some(d) => d.clone(),
        None => String::new(),
    };
    let secret = option.is_secret();
    if let Some(env_form) = &option.env_form {
        append_env_help(&mut help_text, env_form.as_str(), env, secret);
    }
    let ghost after_env = help_text@;
    let names = &option.env_aliases;
    let n = names.len();
    let mut i: usize = 0;
    while i < n
        invariant
            n == names@.len(),
            i <= n,
            secret == (option@.secret == Some(true)),
            help_text@ == after_env + spec_env_help(strs_view(names@).take(i as int), *env, secret),
        decreases n - i,
    {
        assert(strs_view(names@).take(i + 1).drop_last() =~= strs_view(names@).take(i as int));
        append_env_help(&mut help_text, names[i].as_str(), env, secret);
        i = i + 1;
    }
    assert(strs_view(names@).take(n as int) =~= strs_view(names@));
    if let Some(def) = &option.default_help_str {
        help_text.append("\n[default: ");
        help_text.append(def.as_str());
        help_text.append("]");
    }
    if secret {
        help_text.append("\n[secret]");
    }
    assert(help_text@ =~= spec_help_text(option@, *env));
    help_text
}

fn help_option(t: String) -> (r: Option<String>)
    ensures
        crate::program_option::opt_view(r) == help_or_none(t@),
{
    if t.as_str().unicode_len() == 0 {
        None
    } else {
        Some(t)
    }
}

/// Turns a program option into a command-line argument, or into help text for the
/// environment section (see `spec_make_arg`). Requirements, env and default values are not
/// given to the command-line parser: they are handled when values are read, so that every
/// problem can be reported at once.
pub fn make_arg(env: &ParsedEnv, option: &ProgramOption, positional_index: Option<usize>) -> (r: MaybeArg)
    requires
        arg_ok(option@, positional_index),
    ensures
        r@ == spec_make_arg(option@, *env, positional_index),
{
    if option.is_positional {
        let index = match positional_index {
            Some(i) => i,
            None => {
                assert(false);
                0
            },
        };
        let repeat = option.parse_type == ParseType::Repeat;
        let arg = ArgSpec {
            id: option.id.clone(),
            short: None,
            long: None,
            aliases: Vec::new(),
            help: help_option(build_help_text(option, env)),
            action: if repeat { ArgAction::Append } else { ArgAction::SetValue },
            allow_hyphen_values: option.allow_hyphen_values,
            index: Some(index),
            one_or_more: repeat,
            value_parser: ValueParserKind::OsString,
        };
        assert(arg@.aliases =~= Seq::<Seq<char>>::empty());
        return MaybeArg::Arg(arg);
    }
    if option.short_form.is_none() && option.long_form.is_none() {
        if option.env_form.is_some() {
            let mut buf = String::new();
            option.print(&mut buf, Some(env));
            return MaybeArg::EnvOnly(buf);
        } else {
            return MaybeArg::NotArgsOrEnv;
        }
    }
    let flag = option.parse_type == ParseType::Flag;
    let arg = ArgSpec {
        id: option.id.clone(),
        short: option.short_form,
        long: crate::program_option::clone_opt_string(&option.long_form),
        aliases: clone_strings(&option.aliases),
        help: help_option(build_help_text(option, env)),
        action: match option.parse_type {
            ParseType::Flag => ArgAction::SetTrue,
            ParseType::Parameter => ArgAction::SetValue,
            ParseType::Repeat => ArgAction::Append,
        },
        allow_hyphen_values: !flag && option.allow_hyphen_values,
        index: None,
        one_or_more: false,
        value_parser: if flag { ValueParserKind::Falsey } else { ValueParserKind::OsString },
    };
    MaybeArg::Arg(arg)
}


/// The description of a command: what the command-line parser is built from.
pub struct CommandSpec {
    pub name: String,
    pub aliases: Vec<String>,
    pub about: Option<String>,
    pub styles: Option<HelpStyles>,
    pub args: Vec<ArgSpec>,
    pub disable_help_flag: bool,
    pub after_help: Option<String>,
}

/// A parser which matches the command line against a list of program options, with its
/// subcommands. It does not consider the environment when parsing, but uses it in help text.
pub struct Parser {
    options: Vec<ProgramOption>,
    subcommands: Vec<Parser>,
    command: CommandSpec,
}

/// The number of positional options among the first `k` options.
pub open spec fn positional_count(opts: Seq<ProgramOptionView>, k: int) -> int
    decreases k,
{
    if k <= 0 {
        0
    } else {
        positional_count(opts, k - 1) + if opts[k - 1].is_positional {
            1int
        } else {
            0int
        }
    }
}

/// The index of the positional argument with this id: that of the last positional option with
/// the id, counting positional options from 1.
pub open spec fn positional_index(opts: Seq<ProgramOptionView>, id: Seq<char>, k: int) -> Option<int>
    decreases k,
{
    if k <= 0 {
        None
    } else if opts[k - 1].is_positional && opts[k - 1].id == id {
        Some(positional_count(opts, k - 1) + 1)
    } else {
        positional_index(opts, id, k - 1)
    }
}

/// The positional index an option gets.
pub open spec fn index_for(opts: Seq<ProgramOptionView>, o: ProgramOptionView) -> Option<usize> {
    match positional_index(opts, o.id, opts.len() as int) {
        Some(i) => Some(i as usize),
        None => None,
    }
}

/// Whether the positional options are in an order the command line can parse: no positional
/// option after a repeat positional option, and no required positional option after an
/// optional one.
pub open spec fn positionals_ordered(opts: Seq<ProgramOptionView>) -> bool {
    forall|i: int, j: int|
        0 <= i < j < opts.len() && #[trigger] opts[i].is_positional && #[trigger] opts[j].is_positional
            ==> opts[i].parse_type != ParseType::Repeat && (opts[j].is_required
            ==> opts[i].is_required)
}

/// The arguments and the environment help paragraphs that the first `k` options give.
pub open spec fn spec_parser_args(opts: Seq<ProgramOptionView>, env: ParsedEnv, k: int) -> (
    Seq<ArgSpecView>,
    Seq<Seq<char>>,
)
    decreases k,
{
    if k <= 0 {
        (Seq::empty(), Seq::empty())
    } else {
        let (args, texts) = spec_parser_args(opts, env, k - 1);
        match spec_make_arg(opts[k - 1], env, index_for(opts, opts[k - 1])) {
            MaybeArgView::Arg(a) => (args.push(a), texts),
            MaybeArgView::EnvOnly(t) => (args, texts.push(t)),
            MaybeArgView::NotArgsOrEnv => (args, texts),
        }
    }
}

/// The texts joined.
pub open spec fn concat_all(texts: Seq<Seq<char>>) -> Seq<char>
    decreases texts.len(),
{
    if texts.len() == 0 {
        Seq::empty()
    } else {
        concat_all(texts.drop_last()) + texts.last()
    }
}

/// The text after the help: an environment section listing the options read only from the
/// environment, if there are any.
pub open spec fn spec_after_help(texts: Seq<Seq<char>>) -> Option<Seq<char>> {
    if texts.len() == 0 {
        None
    } else {
        Some("Environment variables:\n"@ + concat_all(texts))
    }
}

/// The content of each argument of a list.
pub open spec fn args_view(v: Seq<ArgSpec>) -> Seq<ArgSpecView> {
    v.map_values(|a: ArgSpec| a@)
}

/// The content of each program option of a list.
pub open spec fn opts_view(v: Seq<ProgramOption>) -> Seq<ProgramOptionView> {
    v.map_values(|o: ProgramOption| o@)
}

proof fn lemma_positional_index_bound(opts: Seq<ProgramOptionView>, id: Seq<char>, k: int)
    requires
        0 <= k <= opts.len(),
    ensures
        0 <= positional_count(opts, k) <= k,
        positional_index(opts, id, k) matches Some(i) ==> 1 <= i <= k,
    decreases k,
{
    if k > 0 {
        lemma_positional_index_bound(opts, id, k - 1);
    }
}

impl Parser {
    /// The program options of this parser.
    pub closed spec fn spec_options(&self) -> Seq<ProgramOptionView> {
        opts_view(self.options@)
    }

    /// The command of this parser.
    pub closed spec fn spec_command(&self) -> &CommandSpec {
        &self.command
    }

    /// The number of subcommand parsers.
    pub closed spec fn spec_subcommand_count(&self) -> nat {
        self.subcommands@.len()
    }

    /// The subcommand parsers, in order.
    pub closed spec fn spec_subcommands(&self) -> Seq<Parser> {
        self.subcommands@
    }

    fn positional_index_of(options: &Vec<ProgramOption>, id: &String) -> (r: Option<usize>)
        ensures
            match r {
                Some(i) => positional_index(opts_view(options@), id@, options@.len() as int)
                    == Some(i as int),
                None => positional_index(opts_view(options@), id@, options@.len() as int) is None,
            },
    {
        let ghost ov = opts_view(options@);
        let n = options.len();
        let mut count: usize = 0;
        let mut found: Option<usize> = None;
        let mut k: usize = 0;
        while k < n
            invariant
                n == options@.len(),
                ov == opts_view(options@),
                k <= n,
                count == positional_count(ov, k as int),
                match found {
                    Some(i) => positional_index(ov, id@, k as int) == Some(i as int),
                    None => positional_index(ov, id@, k as int) is None,
                },
            decreases n - k,
        {
            proof {
                lemma_positional_index_bound(ov, id@, k as int);
            }
            if options[k].is_positional {
                if crate::text::str_eq(options[k].id.as_str(), id.as_str()) {
                    found = Some(count + 1);
                }
                count = count + 1;
            }
            k = k + 1;
        }
        found
    }

    /// A parser for these program options and subcommands, with help text that shows the
    /// current values of environment variables. Each option becomes a command-line argument
    /// or environment help as `make_arg` says, in order; positional options are numbered
    /// from 1 in order; the options read only from the environment are listed after the help.
    pub fn new(
        parser_config: ParserConfig,
        options: Vec<ProgramOption>,
        subcommands: Vec<Parser>,
        env: &ParsedEnv,
    ) -> (r: Parser)
        requires
            positionals_ordered(opts_view(options@)),
            forall|i: int|
                0 <= i < options@.len() ==> arg_ok(
                    #[trigger] options@[i]@,
                    index_for(opts_view(options@), options@[i]@),
                ),
        ensures
            r.spec_options() == opts_view(options@),
            r.spec_subcommand_count() == subcommands@.len(),
            r.spec_subcommands() == subcommands@,
            r.spec_command().name@ == parser_config.name@,
            r.spec_command().styles == parser_config.styles,
            r.spec_command().aliases@.len() == 0,
            crate::program_option::opt_view(r.spec_command().about) == match parser_config.about {
                Some(a) => Some(a@),
                None => None,
            },
            r.spec_command().disable_help_flag == parser_config.no_help_flag,
            args_view(r.spec_command().args@) == spec_parser_args(
                opts_view(options@),
                *env,
                options@.len() as int,
            ).0,
            crate::program_option::opt_view(r.spec_command().after_help) == spec_after_help(
                spec_parser_args(opts_view(options@), *env, options@.len() as int).1,
            ),
    {
        let ghost ov = opts_view(options@);
        let mut args: Vec<ArgSpec> = Vec::new();
        let mut env_only_help_text: Vec<String> = Vec::new();
        let n = options.len();
        let mut k: usize = 0;
        while k < n
            invariant
                n == options@.len(),
                ov == opts_view(options@),
                k <= n,
                forall|i: int|
                    0 <= i < options@.len() ==> arg_ok(
                        #[trigger] options@[i]@,
                        index_for(opts_view(options@), options@[i]@),
                    ),
                args_view(args@) == spec_parser_args(ov, *env, k as int).0,
                env_only_help_text@.map_values(|t: String| t@) == spec_parser_args(ov, *env, k as int).1,
            decreases n - k,
        {
            let index = Self::positional_index_of(&options, &options[k].id);
            assert(ov[k as int] == options@[k as int]@);
            proof {
                lemma_positional_index_bound(ov, ov[k as int].id, n as int);
            }
            let ghost before_args = args_view(args@);
            let ghost before_texts = env_only_help_text@.map_values(|t: String| t@);
            match make_arg(env, &options[k], index) {
                MaybeArg::Arg(a) => {
                    args.push(a);
                    assert(args_view(args@) =~= before_args.push(a@));
                },
                MaybeArg::EnvOnly(t) => {
                    env_only_help_text.push(t);
                    assert(env_only_help_text@.map_values(|t: String| t@) =~= before_texts.push(t@));
                },
                MaybeArg::NotArgsOrEnv => {},
            }
            k = k + 1;
        }
        let ghost texts = env_only_help_text@.map_values(|t: String| t@);
        let after_help = if env_only_help_text.len() == 0 {
            None
        } else {
            let mut text = string_of("Environment variables:\n");
            let ghost head = text@;
            let m = env_only_help_text.len();
            let mut j: usize = 0;
            while j < m
                invariant
                    m == env_only_help_text@.len(),
                    texts == env_only_help_text@.map_values(|t: String| t@),
                    j <= m,
                    text@ == head + concat_all(texts.take(j as int)),
                decreases m - j,
            {
                assert(texts.take(j + 1).drop_last() =~= texts.take(j as int));
                text.append(env_only_help_text[j].as_str());
                j = j + 1;
            }
            assert(texts.take(m as int) =~= texts);
            Some(text)
        };
        let command = CommandSpec {
            name: string_of(parser_config.name),
            aliases: Vec::new(),
            about: match parser_config.about {
                Some(a) => Some(string_of(a)),
                None => None,
            },
            styles: parser_config.styles,
            args,
            disable_help_flag: parser_config.no_help_flag,
            after_help,
        };
        Parser { options, subcommands, command }
    }

    /// Whether `Parser::new` accepts these options: the positional options are in an order the
    /// command line can parse, and every option can become a command-line argument
    /// (`arg_ok`). Where this is false, building the parser is an internal error.
    pub fn options_ok(options: &Vec<ProgramOption>) -> (r: bool)
        ensures
            r == (positionals_ordered(opts_view(options@)) && forall|i: int|
                0 <= i < options@.len() ==> arg_ok(
                    #[trigger] options@[i]@,
                    index_for(opts_view(options@), options@[i]@),
                )),
    {
        let ghost ov = opts_view(options@);
        let n = options.len();
        let mut k: usize = 0;
        while k < n
            invariant
                n == options@.len(),
                ov == opts_view(options@),
                k <= n,
                forall|i: int|
                    0 <= i < k ==> arg_ok(#[trigger] options@[i]@, index_for(ov, options@[i]@)),
            decreases n - k,
        {
            let index = Self::positional_index_of(options, &options[k].id);
            assert(ov[k as int] == options@[k as int]@);
            proof {
                lemma_positional_index_bound(ov, ov[k as int].id, n as int);
            }
            if !arg_fits(&options[k], index) {
                return false;
            }
            k = k + 1;
        }
        let mut j: usize = 0;
        while j < n
            invariant
                n == options@.len(),
                ov == opts_view(options@),
                j <= n,
                forall|a: int, b: int|
                    0 <= a < b < j && #[trigger] ov[a].is_positional && #[trigger] ov[b].is_positional
                        ==> ov[a].parse_type != ParseType::Repeat && (ov[b].is_required
                        ==> ov[a].is_required),
            decreases n - j,
        {
            if options[j].is_positional {
                let mut i: usize = 0;
                while i < j
                    invariant
                        n == options@.len(),
                        ov == opts_view(options@),
                        i <= j < n,
                        ov[j as int].is_positional,
                        forall|a: int, b: int|
                            0 <= a < b < j && #[trigger] ov[a].is_positional
                                && #[trigger] ov[b].is_positional ==> ov[a].parse_type
                                != ParseType::Repeat && (ov[b].is_required ==> ov[a].is_required),
                        forall|a: int|
                            0 <= a < i && #[trigger] ov[a].is_positional ==> ov[a].parse_type
                                != ParseType::Repeat && (ov[j as int].is_required
                                ==> ov[a].is_required),
                    decreases j - i,
                {
                    assert(ov[i as int] == options@[i as int]@);
                    if options[i].is_positional {
                        if options[i].parse_type == ParseType::Repeat {
                            return false;
                        }
                        if options[j].is_required && !options[i].is_required {
                            return false;
                        }
                    }
                    i = i + 1;
                }
            }
            j = j + 1;
        }
        true
    }

    /// The program options of this parser.
    pub fn get_program_options(&self) -> (r: &[ProgramOption])
        ensures
            opts_view(r@) == self.spec_options(),
    {
        self.options.as_slice()
    }

    /// The subcommand parsers.
    pub fn get_subcommands(&self) -> (r: &[Parser])
        ensures
            r@.len() == self.spec_subcommand_count(),
            r@ == self.spec_subcommands(),
    {
        self.subcommands.as_slice()
    }

    /// The same parser under another command name (used by subcommands).
    pub fn rename(self, name: String) -> (r: Self)
        ensures
            r.spec_command().name@ == name@,
            r.spec_command().aliases == self.spec_command().aliases,
            r.spec_command().args == self.spec_command().args,
            r.spec_options() == self.spec_options(),
            r.spec_subcommands() == self.spec_subcommands(),
    {
        let mut p = self;
        p.command.name = name;
        p
    }

    /// The same parser with one more command alias (used by subcommands).
    pub fn add_alias(self, alias: String) -> (r: Self)
        ensures
            strs_view(r.spec_command().aliases@) == strs_view(self.spec_command().aliases@).push(
                alias@,
            ),
            r.spec_command().name@ == self.spec_command().name@,
            r.spec_command().args == self.spec_command().args,
            r.spec_options() == self.spec_options(),
            r.spec_subcommands() == self.spec_subcommands(),
    {
        let mut p = self;
        let ghost before = strs_view(p.command.aliases@);
        p.command.aliases.push(alias);
        assert(strs_view(p.command.aliases@) =~= before.push(alias@));
        p
    }

    /// The command of this parser.
    pub fn get_command(&self) -> (r: &CommandSpec)
        ensures
            r == self.spec_command(),
    {
        &self.command
    }

    /// The command of this parser, consuming it.
    pub fn into_command(self) -> (r: CommandSpec)
        ensures
            r == *self.spec_command(),
    {
        self.command
    }
}

} // verus!
