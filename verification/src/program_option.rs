//! Program options: the description of one configurable value, sufficient to find it on
//! the command line or in the environment, and to render help text for it.
use vstd::prelude::*;
use crate::parse_env::ParsedEnv;
use crate::text::{
    append_replacing_newlines, concat_str, contains_char, push_char, replace_newlines,
    string_of, utf8_lossy,
};

verus! {

/// What form of data an option collects from the command line and the environment.
#[derive(Clone, Copy, Debug, PartialEq, Eq, PartialOrd, Ord, Structural)]
pub enum ParseType {
    /// A switch which is either present or absent, with no argument.
    Flag,
    /// A switch with one argument.
    Parameter,
    /// A switch which may appear several times, each time with one argument.
    Repeat,
}

/// The display name of a parse type.
pub open spec fn parse_type_name(t: ParseType) -> Seq<char> {
    match t {
        ParseType::Flag => "Flag"@,
        ParseType::Parameter => "Parameter"@,
        ParseType::Repeat => "Repeat"@,
    }
}

impl ParseType {
    /// The name of the parse type, as it is displayed.
    pub fn to_string(&self) -> (r: String)
        ensures
            r@ == parse_type_name(*self),
    {
        match self {
            ParseType::Flag => string_of("Flag"),
            ParseType::Parameter => string_of("Parameter"),
            ParseType::Repeat => string_of("Repeat"),
        }
    }
}

/// Description of a program option, sufficient to identify it on the command line or in the
/// environment, and to render help text for it. It may have one long form and one short form.
#[derive(Clone, Debug)]
pub struct ProgramOption {
    /// Id of this option: the field name, prefixed with `parent.` on each flattening.
    pub id: String,
    /// Parse type of this option.
    pub parse_type: ParseType,
    /// Description (typically the doc string).
    pub description: Option<String>,
    /// The short-form switch (`-x`), if any.
    pub short_form: Option<char>,
    /// The long-form switch (`--xyz`), if any.
    pub long_form: Option<String>,
    /// Long-form switch aliases.
    pub aliases: Vec<String>,
    /// The environment variable, if any.
    pub env_form: Option<String>,
    /// Environment variable aliases.
    pub env_aliases: Vec<String>,
    /// The default value, if any.
    pub default_value: Option<String>,
    /// The text shown for the default in the help of a command-line argument, if any.
    pub default_help_str: Option<String>,
    /// Whether the option must receive a value.
    pub is_required: bool,
    /// Whether argument values may start with a hyphen.
    pub allow_hyphen_values: bool,
    /// Whether the user declared the value secret (or explicitly not secret).
    pub secret: Option<bool>,
    /// Whether the option is read as a positional command-line argument.
    pub is_positional: bool,
    /// Whether the option can be read from a document.
    pub has_serde_source: bool,
}

/// The mathematical content of a program option.
pub struct ProgramOptionView {
    pub id: Seq<char>,
    pub parse_type: ParseType,
    pub description: Option<Seq<char>>,
    pub short_form: Option<char>,
    pub long_form: Option<Seq<char>>,
    pub aliases: Seq<Seq<char>>,
    pub env_form: Option<Seq<char>>,
    pub env_aliases: Seq<Seq<char>>,
    pub default_value: Option<Seq<char>>,
    pub default_help_str: Option<Seq<char>>,
    pub is_required: bool,
    pub allow_hyphen_values: bool,
    pub secret: Option<bool>,
    pub is_positional: bool,
    pub has_serde_source: bool,
}

/// The characters of an optional string.
pub open spec fn opt_view(o: Option<String>) -> Option<Seq<char>> {
    match o {
        Some(s) => Some(s@),
        None => None,
    }
}

/// The characters of each string of a list.
pub open spec fn strs_view(v: Seq<String>) -> Seq<Seq<char>> {
    v.map_values(|s: String| s@)
}

impl View for ProgramOption {
    type V = ProgramOptionView;

    open spec fn view(&self) -> ProgramOptionView {
        ProgramOptionView {
            id: self.id@,
            parse_type: self.parse_type,
            description: opt_view(self.description),
            short_form: self.short_form,
            long_form: opt_view(self.long_form),
            aliases: strs_view(self.aliases@),
            env_form: opt_view(self.env_form),
            env_aliases: strs_view(self.env_aliases@),
            default_value: opt_view(self.default_value),
            default_help_str: opt_view(self.default_help_str),
            is_required: self.is_required,
            allow_hyphen_values: self.allow_hyphen_values,
            secret: self.secret,
            is_positional: self.is_positional,
            has_serde_source: self.has_serde_source,
        }
    }
}

/// `p` in front of an optional string.
pub open spec fn prefix_opt(p: Seq<char>, o: Option<Seq<char>>) -> Option<Seq<char>> {
    match o {
        Some(s) => Some(p + s),
        None => None,
    }
}

/// `p` in front of each string of a list.
pub open spec fn prefix_all(p: Seq<char>, v: Seq<Seq<char>>) -> Seq<Seq<char>> {
    v.map_values(|s: Seq<char>| p + s)
}

/// A description with a description prefix in front of it: unchanged when the prefix is
/// empty; otherwise the prefix, a newline if either text has a newline (else a space), and
/// the description.
pub open spec fn prefixed_description(p: Seq<char>, d: Seq<char>) -> Seq<char> {
    if p.len() == 0 {
        d
    } else {
        let ws = if p.contains('\n') || d.contains('\n') {
            '\n'
        } else {
            ' '
        };
        p.push(ws) + d
    }
}

/// An option after flattening with these prefixes. Short forms are not prefixed.
pub open spec fn spec_flatten_prefixes(
    o: ProgramOptionView,
    id_prefix: Seq<char>,
    long_prefix: Seq<char>,
    env_prefix: Seq<char>,
    description_prefix: Seq<char>,
) -> ProgramOptionView {
    ProgramOptionView {
        id: id_prefix + o.id,
        long_form: prefix_opt(long_prefix, o.long_form),
        aliases: prefix_all(long_prefix, o.aliases),
        env_form: prefix_opt(env_prefix, o.env_form),
        env_aliases: prefix_all(env_prefix, o.env_aliases),
        description: match o.description {
            Some(d) => Some(prefixed_description(description_prefix, d)),
            None => None,
        },
        ..o
    }
}

/// The index of the first occurrence of `c` in `s`, if any.
pub open spec fn first_index_of(s: Seq<char>, c: char) -> Option<int> {
    if s.contains(c) {
        Some(choose|i: int| 0 <= i < s.len() && s[i] == c && forall|j: int| 0 <= j < i ==> s[j] != c)
    } else {
        None
    }
}

/// The index in `skip_these` at which a short form is skipped, if it is.
pub open spec fn skip_position(short: Option<char>, skip_these: Seq<char>) -> Option<int> {
    match short {
        Some(c) => first_index_of(skip_these, c),
        None => None,
    }
}

fn prefix_string(p: &str, s: &String) -> (r: String)
    ensures
        r@ == p@ + s@,
{
    concat_str(p, s.as_str())
}

fn prefix_option(p: &str, o: Option<String>) -> (r: Option<String>)
    ensures
        opt_view(r) == prefix_opt(p@, opt_view(o)),
{
    match o {
        Some(s) => Some(prefix_string(p, &s)),
        None => None,
    }
}

fn prefix_each(p: &str, v: Vec<String>) -> (r: Vec<String>)
    ensures
        strs_view(r@) == prefix_all(p@, strs_view(v@)),
{
    let mut out: Vec<String> = Vec::new();
    let n = v.len();
    let mut i: usize = 0;
    while i < n
        invariant
            n == v@.len(),
            i <= n,
            out@.len() == i,
            forall|k: int| 0 <= k < i ==> #[trigger] out@[k]@ == p@ + v@[k]@,
        decreases n - i,
    {
        out.push(prefix_string(p, &v[i]));
        i = i + 1;
    }
    assert(strs_view(out@) =~= prefix_all(p@, strs_view(v@)));
    out
}

impl ProgramOption {
    /// Whether the option can receive a value from the command line: it has a short or a long
    /// form, or is positional.
    pub open spec fn spec_has_args_source(&self) -> bool {
        self.short_form is Some || self.long_form is Some || self.is_positional
    }

    /// Whether the option can receive a value from the command line: it has a short or a long
    /// form, or is positional.
    pub fn has_args_source(&self) -> (r: bool)
        ensures
            r == self.spec_has_args_source(),
    {
        self.short_form.is_some() || self.long_form.is_some() || self.is_positional
    }

    /// Whether the value is secret. Secrets must be declared as such.
    pub open spec fn spec_is_secret(&self) -> bool {
        self.secret == Some(true)
    }

    /// Whether the value is secret. Secrets must be declared as such.
    pub fn is_secret(&self) -> (r: bool)
        ensures
            r == self.spec_is_secret(),
    {
        match self.secret {
            Some(b) => b,
            None => false,
        }
    }

    /// Applies the prefixes of a flattening to an option of the flattened structure: the id
    /// prefix to the id, the long prefix to the long form and its aliases, the env prefix to
    /// the env form and its aliases, and the description prefix to the description. Short
    /// forms are not prefixed.
    pub fn apply_flatten_prefixes(
        self,
        id_prefix: &str,
        long_prefix: &str,
        env_prefix: &str,
        description_prefix: &str,
    ) -> (r: ProgramOption)
        ensures
            r@ == spec_flatten_prefixes(
                self@,
                id_prefix@,
                long_prefix@,
                env_prefix@,
                description_prefix@,
            ),
    {
        let ghost old_v = self@;
        let ProgramOption {
            id,
            parse_type,
            description,
            short_form,
            long_form,
            aliases,
            env_form,
            env_aliases,
            default_value,
            default_help_str,
            is_required,
            allow_hyphen_values,
            secret,
            is_positional,
            has_serde_source,
        } = self;
        let id = prefix_string(id_prefix, &id);
        let long_form = prefix_option(long_prefix, long_form);
        let aliases = prefix_each(long_prefix, aliases);
        let env_form = prefix_option(env_prefix, env_form);
        let env_aliases = prefix_each(env_prefix, env_aliases);
        let description = match description {
            Some(desc) => {
                if description_prefix.unicode_len() == 0 {
                    Some(desc)
                } else {
                    let ws = if contains_char(description_prefix, '\n') || contains_char(
                        desc.as_str(),
                        '\n',
                    ) {
                        '\n'
                    } else {
                        ' '
                    };
                    let mut d = string_of(description_prefix);
                    push_char(&mut d, ws);
                    d.append(desc.as_str());
                    Some(d)
                }
            },
            None => None,
        };
        let r = ProgramOption {
            id,
            parse_type,
            description,
            short_form,
            long_form,
            aliases,
            env_form,
            env_aliases,
            default_value,
            default_help_str,
            is_required,
            allow_hyphen_values,
            secret,
            is_positional,
            has_serde_source,
        };
        assert(r@ == spec_flatten_prefixes(
            old_v,
            id_prefix@,
            long_prefix@,
            env_prefix@,
            description_prefix@,
        ));
        r
    }

    /// Drops the short form if it belongs to `skip_these`, and marks the position of the first
    /// such entry in `was_skipped`. This is applied when flattening with `skip_short`.
    pub fn skip_short_forms(self, skip_these: &[char], was_skipped: &mut [bool]) -> (r: Self)
        requires
            skip_position(self.short_form, skip_these@) matches Some(p) ==> p < old(was_skipped)@.len(),
        ensures
            match skip_position(self.short_form, skip_these@) {
                Some(p) => r@ == (ProgramOptionView { short_form: None, ..self@ })
                    && final(was_skipped)@ == old(was_skipped)@.update(p, true),
                None => r@ == self@ && final(was_skipped)@ == old(was_skipped)@,
            },
    {
        let mut opt = self;
        if let Some(short) = opt.short_form {
            let n = skip_these.len();
            let mut i: usize = 0;
            while i < n
                invariant
                    n == skip_these@.len(),
                    i <= n,
                    forall|j: int| 0 <= j < i ==> skip_these@[j] != short,
                    opt == self,
                    self.short_form == Some(short),
                    was_skipped@ == old(was_skipped)@,
                    skip_position(self.short_form, skip_these@) matches Some(p) ==> p < old(was_skipped)@.len(),
                decreases n - i,
            {
                if skip_these[i] == short {
                    proof {
                        assert(skip_these@.contains(short));
                        let p = first_index_of(skip_these@, short).unwrap();
                        assert(p == i as int) by {
                            if p < i {
                                assert(skip_these@[p] != short);
                            }
                            if p > i {
                                assert(skip_these@[i as int] == short);
                            }
                        }
                    }
                    opt.short_form = None;
                    was_skipped[i] = true;
                    return opt;
                }
                i = i + 1;
            }
            assert(!skip_these@.contains(short));
        }
        opt
    }

    /// Makes the option optional if it was required.
    pub fn make_optional(self) -> (r: Self)
        ensures
            r@ == (ProgramOptionView { is_required: false, ..self@ }),
    {
        let mut opt = self;
        opt.is_required = false;
        opt
    }
}


/// The current value of an environment variable as help text shows it.
pub open spec fn current_env_value(env: ParsedEnv, name: Seq<char>) -> Seq<char> {
    match env.lookup(name) {
        Some(v) => utf8_lossy(v),
        None => Seq::empty(),
    }
}

/// The help line of one environment variable, with its current value unless there is no
/// environment to show or the value is secret.
pub open spec fn env_help_line(name: Seq<char>, env: Option<ParsedEnv>, secret: bool) -> Seq<char> {
    match env {
        Some(e) if !secret => "          [env: "@ + name + "="@ + current_env_value(e, name) + "]\n"@,
        _ => "          [env: "@ + name + "]\n"@,
    }
}

/// The help lines of a list of environment variables, in order.
pub open spec fn env_help_lines(names: Seq<Seq<char>>, env: Option<ParsedEnv>, secret: bool) -> Seq<char>
    decreases names.len(),
{
    if names.len() == 0 {
        Seq::empty()
    } else {
        env_help_lines(names.drop_last(), env, secret) + env_help_line(names.last(), env, secret)
    }
}

/// The first help line of an option: its switches, and a placeholder if it takes a value.
pub open spec fn help_switch_line(o: ProgramOptionView) -> Seq<char> {
    let dash = if o.short_form is Some { '-' } else { ' ' };
    let short = match o.short_form {
        Some(c) => c,
        None => ' ',
    };
    let comma = if o.short_form is Some && o.long_form is Some { ',' } else { ' ' };
    "  "@ + seq![dash, short, comma] + " "@ + match o.long_form {
        Some(l) => "--"@ + l + " "@,
        None => Seq::empty(),
    } + if o.parse_type != ParseType::Flag {
        "<"@ + o.id + ">"@
    } else {
        Seq::empty()
    } + "\n"@
}

/// The indented description lines of an option, if it has a description.
pub open spec fn help_description(o: ProgramOptionView) -> Seq<char> {
    match o.description {
        Some(d) => "          "@ + replace_newlines(d, "\n          "@) + "\n"@,
        None => Seq::empty(),
    }
}

/// The env lines of an option: its env form, then its env aliases.
pub open spec fn help_env_lines(o: ProgramOptionView, env: Option<ParsedEnv>) -> Seq<char> {
    let secret = o.secret == Some(true);
    (match o.env_form {
        Some(name) => env_help_line(name, env, secret),
        None => Seq::empty(),
    }) + env_help_lines(o.env_aliases, env, secret)
}

/// The default-value and secret lines of an option.
pub open spec fn help_tail(o: ProgramOptionView) -> Seq<char> {
    (match o.default_value {
        Some(d) => "          [default: "@ + d + "]\n"@,
        None => Seq::empty(),
    }) + if o.secret == Some(true) {
        "          [secret]\n"@
    } else {
        Seq::empty()
    }
}

/// The help text block of an option:
///
/// ```text
///   -x, --xyz <id>
///           This is the description.
///           [env: XYZ=ABC]
///           [default: 123]
/// ```
///
/// The short forms of all options line up, and so do the long forms.
pub open spec fn spec_print(o: ProgramOptionView, env: Option<ParsedEnv>) -> Seq<char> {
    help_switch_line(o) + help_description(o) + help_env_lines(o, env) + help_tail(o)
}

/// An optional borrowed environment as a value.
pub open spec fn env_opt(env: Option<&ParsedEnv>) -> Option<ParsedEnv> {
    match env {
        Some(e) => Some(*e),
        None => None,
    }
}

fn write_env_line(out: &mut String, name: &str, env: Option<&ParsedEnv>, secret: bool)
    ensures
        final(out)@ == old(out)@ + env_help_line(name@, env_opt(env), secret),
{
    match env {
        Some(e) if !secret => {
            let cur = e.get_lossy_or_default(name);
            out.append("          [env: ");
            out.append(name);
            out.append("=");
            out.append(cur.as_str());
            out.append("]\n");
        },
        _ => {
            out.append("          [env: ");
            out.append(name);
            out.append("]\n");
        },
    }
}

impl ProgramOption {
    fn write_switch_line(&self, out: &mut String)
        ensures
            final(out)@ == old(out)@ + help_switch_line(self@),
    {
        let ghost start = out@;
        let dash = if self.short_form.is_some() { '-' } else { ' ' };
        let short = match self.short_form {
            Some(c) => c,
            None => ' ',
        };
        let comma = if self.short_form.is_some() && self.long_form.is_some() { ',' } else { ' ' };
        out.append("  ");
        push_char(out, dash);
        push_char(out, short);
        push_char(out, comma);
        out.append(" ");
        if let Some(long) = &self.long_form {
            out.append("--");
            out.append(long.as_str());
            out.append(" ");
        }
        if self.parse_type != ParseType::Flag {
            out.append("<");
            out.append(self.id.as_str());
            out.append(">");
        }
        out.append("\n");
        assert(out@ =~= start + help_switch_line(self@));
    }

    fn write_description(&self, out: &mut String)
        ensures
            final(out)@ == old(out)@ + help_description(self@),
    {
        let ghost start = out@;
        if let Some(desc) = &self.description {
            out.append("          ");
            append_replacing_newlines(out, desc.as_str(), "\n          ");
            out.append("\n");
        }
        assert(out@ =~= start + help_description(self@));
    }

    fn write_env_lines(&self, out: &mut String, env: Option<&ParsedEnv>)
        ensures
            final(out)@ == old(out)@ + help_env_lines(self@, env_opt(env)),
    {
        let ghost start = out@;
        let secret = self.is_secret();
        if let Some(name) = &self.env_form {
            write_env_line(out, name.as_str(), env, secret);
        }
        let ghost after_env = out@;
        let n = self.env_aliases.len();
        let mut i: usize = 0;
        while i < n
            invariant
                n == self.env_aliases@.len(),
                i <= n,
                secret == self.spec_is_secret(),
                out@ == after_env + env_help_lines(
                    strs_view(self.env_aliases@).take(i as int),
                    env_opt(env),
                    secret,
                ),
            decreases n - i,
        {
            assert(strs_view(self.env_aliases@).take(i + 1).drop_last() =~= strs_view(
                self.env_aliases@,
            ).take(i as int));
            write_env_line(out, self.env_aliases[i].as_str(), env, secret);
            i = i + 1;
        }
        assert(strs_view(self.env_aliases@).take(n as int) =~= strs_view(self.env_aliases@));
        assert(out@ =~= start + help_env_lines(self@, env_opt(env)));
    }

    fn write_tail(&self, out: &mut String)
        ensures
            final(out)@ == old(out)@ + help_tail(self@),
    {
        let ghost start = out@;
        if let Some(def) = &self.default_value {
            out.append("          [default: ");
            out.append(def.as_str());
            out.append("]\n");
        }
        if self.is_secret() {
            out.append("          [secret]\n");
        }
        assert(out@ =~= start + help_tail(self@));
    }

    /// Appends the help text block of this option to `out` (see `spec_print`). With an
    /// environment, each env line shows the variable's current value, unless the option is
    /// secret.
    pub fn print(&self, out: &mut String, env: Option<&ParsedEnv>)
        ensures
            final(out)@ == old(out)@ + spec_print(self@, env_opt(env)),
    {
        let ghost start = out@;
        self.write_switch_line(out);
        self.write_description(out);
        self.write_env_lines(out, env);
        self.write_tail(out);
        assert(out@ =~= start + spec_print(self@, env_opt(env)));
    }
}


/// A copy of an optional string.
pub fn clone_opt_string(o: &Option<String>) -> (r: Option<String>)
    ensures
        opt_view(r) == opt_view(*o),
{
    match o {
        Some(s) => Some(s.clone()),
        None => None,
    }
}

/// A copy of a list of strings.
pub fn clone_strings(v: &Vec<String>) -> (r: Vec<String>)
    ensures
        strs_view(r@) == strs_view(v@),
{
    let mut out: Vec<String> = Vec::new();
    let n = v.len();
    let mut i: usize = 0;
    while i < n
        invariant
            n == v@.len(),
            i <= n,
            out@.len() == i,
            forall|k: int| 0 <= k < i ==> #[trigger] out@[k]@ == v@[k]@,
        decreases n - i,
    {
        out.push(v[i].clone());
        i = i + 1;
    }
    assert(strs_view(out@) =~= strs_view(v@));
    out
}

impl ProgramOption {
    /// A copy of this option.
    pub fn duplicate(&self) -> (r: ProgramOption)
        ensures
            r@ == self@,
    {
        ProgramOption {
            id: self.id.clone(),
            parse_type: self.parse_type,
            description: clone_opt_string(&self.description),
            short_form: self.short_form,
            long_form: clone_opt_string(&self.long_form),
            aliases: clone_strings(&self.aliases),
            env_form: clone_opt_string(&self.env_form),
            env_aliases: clone_strings(&self.env_aliases),
            default_value: clone_opt_string(&self.default_value),
            default_help_str: clone_opt_string(&self.default_help_str),
            is_required: self.is_required,
            allow_hyphen_values: self.allow_hyphen_values,
            secret: self.secret,
            is_positional: self.is_positional,
            has_serde_source: self.has_serde_source,
        }
    }
}

} // verus!
