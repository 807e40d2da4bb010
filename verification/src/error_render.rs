//! Rendering of configuration errors as the text that the user sees.
use vstd::prelude::*;
use vstd::utf8::encode_utf8;
use crate::conf_context::ConfValueSource;
use crate::error::{DebugInfoView, InnerError, InnerErrorView, OwnedFlattenedOptionalDebugInfo};
use crate::program_option::{ProgramOption, ProgramOptionView};
use crate::text::{append_replacing_newlines, contains_char, push_char, replace_newlines, string_of, lossy_string, utf8_lossy};

verus! {

/// The terminal codes of a text style: the code that starts it and the code that resets it.
pub struct StyleCodes {
    pub on: String,
    pub off: String,
}

/// The number of bytes of the UTF-8 encoding of a text.
pub open spec fn byte_len(s: Seq<char>) -> int {
    encode_utf8(s).len() as usize as int
}

/// The switch by which help text names an option: the long form if there is one, else the
/// short form.
pub open spec fn spec_help_switch(o: ProgramOptionView) -> Option<Seq<char>> {
    match o.long_form {
        Some(l) => Some("--"@ + l),
        None => match o.short_form {
            Some(c) => Some("-"@.push(c)),
            None => None,
        },
    }
}

/// How an error names a provided value: by its switch, its environment variable, its
/// document, or as a default value.
pub open spec fn spec_provided_opt(o: ProgramOptionView, src: ConfValueSource<Seq<char>>) -> Seq<char> {
    match src {
        ConfValueSource::Args => "'"@ + match spec_help_switch(o) {
            Some(s) => s,
            None => Seq::empty(),
        } + "'"@,
        ConfValueSource::Default => "default value"@,
        ConfValueSource::Env(name) => "env '"@ + name + "'"@,
        ConfValueSource::Document(name) => "document '"@ + name + "'"@,
    }
}

/// The text without its last character if that is a dot.
pub open spec fn spec_remove_trailing_dot(s: Seq<char>) -> Seq<char> {
    if s.len() > 0 && s.last() == '.' {
        s.drop_last()
    } else {
        s
    }
}

/// One line saying how a required option can be provided, followed by `trailing`.
pub open spec fn spec_opt_requirements(o: ProgramOptionView, trailing: Seq<char>) -> Seq<char> {
    match (spec_help_switch(o), o.env_form) {
        (Some(switch), Some(name)) => "  env '"@ + name + "', or '"@ + switch + "'"@ + (if trailing.len()
            == 0 {
            Seq::empty()
        } else {
            ", "@ + trailing
        }) + "\n"@,
        (Some(switch), None) => "  '"@ + switch + "' "@ + trailing + "\n"@,
        (None, Some(name)) => "  env '"@ + name + "' "@ + trailing + "\n"@,
        (None, None) => "  There is no way to provide this value, this is an internal error ("@
            + o.id + ")\n"@,
    }
}

/// The line saying why a flattened-optional group is enabled.
pub open spec fn spec_required_opt_context(d: DebugInfoView) -> Seq<char> {
    let context = if d.id_prefix.len() == 0 {
        d.struct_name
    } else {
        spec_remove_trailing_dot(d.struct_name + " @ ."@ + d.id_prefix)
    };
    "because "@ + spec_provided_opt(d.option_appeared, d.value_source)
        + " was provided (enabling argument group "@ + context + ")\n"@
}

/// An error message laid out for a line that already holds about `so_far` bytes: it starts
/// on a new line if it has a newline or would make the line longer than 100 bytes, and its
/// continuation lines are indented by 4 spaces.
pub open spec fn spec_format_err_str(err: Seq<char>, so_far: int) -> Seq<char> {
    let e = if byte_len(err) + so_far > 100 || err.contains('\n') {
        "\n"@ + err
    } else {
        err
    };
    replace_newlines(e, "\n    "@)
}

/// The byte length of a string.
fn str_byte_len(s: &str) -> (r: usize)
    ensures
        r == byte_len(s@),
{
    s.len()
}

/// The switch by which help text names an option.
pub fn render_help_switch(opt: &ProgramOption) -> (r: Option<String>)
    ensures
        match r {
            Some(s) => spec_help_switch(opt@) == Some(s@),
            None => spec_help_switch(opt@) is None,
        },
{
    match &opt.long_form {
        Some(l) => {
            let mut s = string_of("--");
            s.append(l.as_str());
            Some(s)
        },
        None => match opt.short_form {
            Some(c) => {
                let mut s = string_of("-");
                push_char(&mut s, c);
                Some(s)
            },
            None => None,
        },
    }
}

/// How an error names a provided value (see `spec_provided_opt`).
pub fn render_provided_opt(opt: &ProgramOption, value_source: &ConfValueSource<String>) -> (r: String)
    ensures
        r@ == spec_provided_opt(opt@, value_source@),
{
    match value_source {
        ConfValueSource::Args => {
            let mut s = string_of("'");
            match render_help_switch(opt) {
                Some(sw) => s.append(sw.as_str()),
                None => {},
            }
            s.append("'");
            s
        },
        ConfValueSource::Default => string_of("default value"),
        ConfValueSource::Env(name) => {
            let mut s = string_of("env '");
            s.append(name.as_str());
            s.append("'");
            s
        },
        ConfValueSource::Document(name) => {
            let mut s = string_of("document '");
            s.append(name.as_str());
            s.append("'");
            s
        },
    }
}

/// Removes the last character of the string if it is a dot.
pub fn remove_trailing_dot(s: &mut String)
    ensures
        final(s)@ == spec_remove_trailing_dot(old(s)@),
{
    let n = s.as_str().unicode_len();
    if n > 0 && s.as_str().get_char(n - 1) == '.' {
        let kept = s.as_str().substring_char(0, n - 1);
        let t = string_of(kept);
        assert(t@ =~= old(s)@.drop_last());
        *s = t;
    }
}

/// Appends the line saying how a required option can be provided.
pub fn print_opt_requirements(out: &mut String, opt: &ProgramOption, trailing_text: &str)
    ensures
        final(out)@ == old(out)@ + spec_opt_requirements(opt@, trailing_text@),
{
    let ghost start = out@;
    match (render_help_switch(opt), &opt.env_form) {
        (Some(switch), Some(name)) => {
            out.append("  env '");
            out.append(name.as_str());
            out.append("', or '");
            out.append(switch.as_str());
            out.append("'");
            if trailing_text.unicode_len() != 0 {
                out.append(", ");
                out.append(trailing_text);
            }
            out.append("\n");
        },
        (Some(switch), None) => {
            out.append("  '");
            out.append(switch.as_str());
            out.append("' ");
            out.append(trailing_text);
            out.append("\n");
        },
        (None, Some(name)) => {
            out.append("  env '");
            out.append(name.as_str());
            out.append("' ");
            out.append(trailing_text);
            out.append("\n");
        },
        (None, None) => {
            out.append("  There is no way to provide this value, this is an internal error (");
            out.append(opt.id.as_str());
            out.append(")\n");
        },
    }
    assert(out@ =~= start + spec_opt_requirements(opt@, trailing_text@));
}

/// Lays out an error message (see `spec_format_err_str`).
pub fn format_err_str(err_str: &str, estimated_line_length_so_far: usize) -> (r: String)
    ensures
        r@ == spec_format_err_str(err_str@, estimated_line_length_so_far as int),
{
    let len = str_byte_len(err_str);
    let mut e = String::new();
    if len.saturating_add(estimated_line_length_so_far) > 100 || contains_char(err_str, '\n') {
        e.append("\n");
    }
    e.append(err_str);
    let mut r = String::new();
    append_replacing_newlines(&mut r, e.as_str(), "\n    ");
    assert(r@ =~= spec_format_err_str(err_str@, estimated_line_length_so_far as int));
    r
}

impl OwnedFlattenedOptionalDebugInfo {
    /// Appends the line saying why this flattened-optional group is enabled.
    pub fn print_required_opt_context(&self, out: &mut String)
        ensures
            final(out)@ == old(out)@ + spec_required_opt_context(self@),
    {
        let ghost start = out@;
        let provided = render_provided_opt(&self.option_appeared, &self.value_source);
        let mut context = self.struct_name.clone();
        if self.id_prefix.as_str().unicode_len() != 0 {
            context.append(" @ .");
            context.append(self.id_prefix.as_str());
            remove_trailing_dot(&mut context);
        }
        out.append("because ");
        out.append(provided.as_str());
        out.append(" was provided (enabling argument group ");
        out.append(context.as_str());
        out.append(")\n");
        assert(out@ =~= start + spec_required_opt_context(self@));
    }
}


/// The kinds of errors reported to the user, each named after the command-line error kind
/// that reports it.
#[derive(Clone, Copy, Debug, PartialEq, Eq, Structural)]
pub enum ErrorKind {
    InvalidValue,
    MissingRequiredArgument,
    TooFewValues,
    TooManyValues,
    ValueValidation,
}

/// A short (one-line) description of an error.
pub open spec fn spec_title(e: InnerErrorView) -> Seq<char> {
    match e {
        InnerErrorView::InvalidUtf8Env(..) => "An env var contained invalid UTF8"@,
        InnerErrorView::MissingRequiredParameter(..) => "A required value was not provided"@,
        InnerErrorView::TooFewArguments(..) => "Too few arguments"@,
        InnerErrorView::TooManyArguments(..) => "Too many arguments"@,
        InnerErrorView::ValidationFailed(..) => "Validation failed"@,
        InnerErrorView::InvalidParameterValue(..) => "Invalid value"@,
    }
}

/// The kind under which an error is reported.
pub open spec fn spec_error_kind(e: InnerErrorView) -> ErrorKind {
    match e {
        InnerErrorView::InvalidUtf8Env(..) => ErrorKind::InvalidValue,
        InnerErrorView::MissingRequiredParameter(..) => ErrorKind::MissingRequiredArgument,
        InnerErrorView::TooFewArguments(..) => ErrorKind::TooFewValues,
        InnerErrorView::TooManyArguments(..) => ErrorKind::TooManyValues,
        InnerErrorView::ValidationFailed(..) => ErrorKind::ValueValidation,
        InnerErrorView::InvalidParameterValue(..) => ErrorKind::InvalidValue,
    }
}

/// The option an error is about, if it is about one option.
pub open spec fn spec_error_option(e: InnerErrorView) -> Option<ProgramOptionView> {
    match e {
        InnerErrorView::InvalidUtf8Env(_, o, _) => Some(o),
        InnerErrorView::MissingRequiredParameter(o, _) => Some(o),
        InnerErrorView::InvalidParameterValue(_, _, o, _) => Some(o),
        _ => None,
    }
}

/// How a constraint names the instance it applies to: nothing at top level, else
/// ` @ .prefix` without a trailing dot.
pub open spec fn spec_instance_suffix(prefix: Seq<char>) -> Seq<char> {
    if prefix.len() == 0 {
        Seq::empty()
    } else {
        spec_remove_trailing_dot(" @ ."@ + prefix)
    }
}

/// The requirement lines of the single options of a constraint.
pub open spec fn spec_requirement_lines(opts: Seq<ProgramOptionView>) -> Seq<char>
    decreases opts.len(),
{
    if opts.len() == 0 {
        Seq::empty()
    } else {
        spec_requirement_lines(opts.drop_last()) + "  "@ + spec_opt_requirements(
            opts.last(),
            Seq::empty(),
        )
    }
}

/// The argument-group lines of the flattened fields of a constraint.
pub open spec fn spec_group_lines(fields: Seq<Seq<char>>) -> Seq<char>
    decreases fields.len(),
{
    if fields.len() == 0 {
        Seq::empty()
    } else {
        spec_group_lines(fields.drop_last()) + "    Argument group '"@ + fields.last() + "'\n"@
    }
}

/// The lines of the single options that appeared in an at-most-one constraint.
pub open spec fn spec_provided_lines(singles: Seq<(ProgramOptionView, ConfValueSource<Seq<char>>)>) -> Seq<char>
    decreases singles.len(),
{
    if singles.len() == 0 {
        Seq::empty()
    } else {
        spec_provided_lines(singles.drop_last()) + "    "@ + spec_provided_opt(
            singles.last().0,
            singles.last().1,
        ) + "\n"@
    }
}

/// The lines of the flattened fields in which an option appeared, in an at-most-one
/// constraint.
pub open spec fn spec_provided_group_lines(
    flattened: Seq<(Seq<char>, ProgramOptionView, ConfValueSource<Seq<char>>)>,
) -> Seq<char>
    decreases flattened.len(),
{
    if flattened.len() == 0 {
        Seq::empty()
    } else {
        let (field, o, src) = flattened.last();
        spec_provided_group_lines(flattened.drop_last()) + "    "@ + spec_provided_opt(o, src)
            + " (part of argument group '"@ + field + "')\n"@
    }
}

/// The indented details of an error (without the help of its option). `on` and `off` are
/// the codes of the style in which invalid values are shown.
pub open spec fn spec_body(e: InnerErrorView, on: Seq<char>, off: Seq<char>) -> Seq<char> {
    match e {
        InnerErrorView::InvalidUtf8Env(name, o, maybe_val) => {
            let shown = match maybe_val {
                Some(v) if o.secret != Some(true) => utf8_lossy(v),
                _ => "***secret***"@,
            };
            "  "@ + name + ": "@ + on + "'"@ + shown + "'"@ + off + "\n"@
        },
        InnerErrorView::MissingRequiredParameter(o, info) => spec_opt_requirements(
            o,
            "must be provided"@,
        ) + match info {
            Some(d) => "    "@ + spec_required_opt_context(d),
            None => Seq::empty(),
        },
        InnerErrorView::InvalidParameterValue(src, value, o, err) => {
            let context = "  when parsing "@ + spec_provided_opt(o, src) + " value"@;
            let secret = o.secret == Some(true);
            let shown = if secret {
                Seq::empty()
            } else {
                " "@ + on + "'"@ + value + "'"@ + off
            };
            let estimated = byte_len(context) + if secret {
                0
            } else {
                3 + byte_len(value)
            };
            context + shown + ": "@ + spec_format_err_str(err, estimated + 2) + "\n"@
        },
        InnerErrorView::TooFewArguments(name, prefix, opts, fields, info) =>
            "  One of these must be provided: (constraint on "@ + name + spec_instance_suffix(
            prefix,
        ) + "): \n"@ + spec_requirement_lines(opts) + spec_group_lines(fields) + match info {
            Some(d) => "  "@ + spec_required_opt_context(d),
            None => Seq::empty(),
        },
        InnerErrorView::TooManyArguments(name, prefix, singles, flattened) =>
            "  Too many arguments, provide at most one of these: (constraint on "@ + name
            + spec_instance_suffix(prefix) + "): \n"@ + spec_provided_lines(singles)
            + spec_provided_group_lines(flattened),
        InnerErrorView::ValidationFailed(name, prefix, err) => {
            let context = "  "@ + name + " value was invalid"@ + if prefix.len() == 0 {
                Seq::empty()
            } else {
                " (@ ."@ + prefix + ")"@
            };
            context + ": "@ + spec_format_err_str(err, byte_len(context) + 2) + "\n"@
        },
    }
}

/// The text of an error reported alone: its title, its details, and the help of its option
/// if it is about one option.
pub open spec fn spec_solo(e: InnerErrorView, on: Seq<char>, off: Seq<char>) -> Seq<char> {
    spec_title(e) + "\n"@ + spec_body(e, on, off) + match spec_error_option(e) {
        Some(o) => "\n"@ + "Help:\n"@ + crate::program_option::spec_print(o, None),
        None => Seq::empty(),
    }
}

proof fn lemma_format_saturated(err: Seq<char>, s: int, sat: int)
    requires
        0 <= s,
        sat == if s > usize::MAX {
            usize::MAX as int
        } else {
            s
        },
    ensures
        spec_format_err_str(err, sat) == spec_format_err_str(err, s),
{
}

impl InnerError {
    /// A short (one-line) description of this error.
    pub fn title(&self) -> (r: &'static str)
        ensures
            r@ == spec_title(self@),
    {
        match self {
            InnerError::InvalidUtf8Env(..) => "An env var contained invalid UTF8",
            InnerError::MissingRequiredParameter(..) => "A required value was not provided",
            InnerError::TooFewArguments(..) => "Too few arguments",
            InnerError::TooManyArguments(..) => "Too many arguments",
            InnerError::ValidationFailed(..) => "Validation failed",
            InnerError::InvalidParameterValue(..) => "Invalid value",
        }
    }

    /// The kind under which this error is reported.
    pub fn error_kind(&self) -> (r: ErrorKind)
        ensures
            r == spec_error_kind(self@),
    {
        match self {
            InnerError::InvalidUtf8Env(..) => ErrorKind::InvalidValue,
            InnerError::MissingRequiredParameter(..) => ErrorKind::MissingRequiredArgument,
            InnerError::TooFewArguments(..) => ErrorKind::TooFewValues,
            InnerError::TooManyArguments(..) => ErrorKind::TooManyValues,
            InnerError::ValidationFailed(..) => ErrorKind::ValueValidation,
            InnerError::InvalidParameterValue(..) => ErrorKind::InvalidValue,
        }
    }

    /// The option this error is about, if it is about one option.
    pub fn get_program_option(&self) -> (r: Option<&ProgramOption>)
        ensures
            match r {
                Some(o) => spec_error_option(self@) == Some(o@),
                None => spec_error_option(self@) is None,
            },
    {
        match self {
            InnerError::InvalidUtf8Env(_, opt, _) => Some(&**opt),
            InnerError::MissingRequiredParameter(opt, ..) => Some(&**opt),
            InnerError::InvalidParameterValue(_, _, opt, _) => Some(&**opt),
            InnerError::TooFewArguments(..) => None,
            InnerError::TooManyArguments(..) => None,
            InnerError::ValidationFailed(..) => None,
        }
    }

    /// Appends the text of this error reported alone (see `spec_solo`).
    pub fn print_solo(&self, out: &mut String, invalid: &StyleCodes)
        ensures
            final(out)@ == old(out)@ + spec_solo(self@, invalid.on@, invalid.off@),
    {
        let ghost start = out@;
        out.append(self.title());
        out.append("\n");
        self.print_body(out, invalid);
        if let Some(opt) = self.get_program_option() {
            out.append("\n");
            out.append("Help:\n");
            opt.print(out, None);
        }
        assert(out@ =~= start + spec_solo(self@, invalid.on@, invalid.off@));
    }

    /// Appends the indented details of this error (see `spec_body`).
    pub fn print_body(&self, out: &mut String, invalid: &StyleCodes)
        ensures
            final(out)@ == old(out)@ + spec_body(self@, invalid.on@, invalid.off@),
    {
        match self {
            InnerError::InvalidUtf8Env(name, opt, maybe_val) => {
                self.print_invalid_utf8(out, invalid, name, opt, maybe_val);
            },
            InnerError::MissingRequiredParameter(opt, maybe_info) => {
                self.print_missing(out, opt, maybe_info);
            },
            InnerError::InvalidParameterValue(value_source, value_str, opt, err) => {
                self.print_invalid_value(out, invalid, value_source, value_str, opt, err);
            },
            InnerError::TooFewArguments(name, prefix, opts, fields, maybe_info) => {
                self.print_too_few(out, name, prefix, opts, fields, maybe_info);
            },
            InnerError::TooManyArguments(name, prefix, singles, flattened) => {
                self.print_too_many(out, name, prefix, singles, flattened);
            },
            InnerError::ValidationFailed(name, prefix, err) => {
                self.print_validation(out, name, prefix, err);
            },
        }
    }

    fn print_invalid_utf8(
        &self,
        out: &mut String,
        invalid: &StyleCodes,
        name: &String,
        opt: &ProgramOption,
        maybe_val: &Option<Vec<u8>>,
    )
        requires
            self@ == InnerErrorView::InvalidUtf8Env(
                name@,
                opt@,
                match maybe_val {
                    Some(b) => Some(b@),
                    None => None,
                },
            ),
        ensures
            final(out)@ == old(out)@ + spec_body(self@, invalid.on@, invalid.off@),
    {
        let ghost start = out@;
        let shown = match maybe_val {
            Some(v) => if opt.is_secret() {
                string_of("***secret***")
            } else {
                lossy_string(v.as_slice())
            },
            None => string_of("***secret***"),
        };
        out.append("  ");
        out.append(name.as_str());
        out.append(": ");
        out.append(invalid.on.as_str());
        out.append("'");
        out.append(shown.as_str());
        out.append("'");
        out.append(invalid.off.as_str());
        out.append("\n");
        assert(out@ =~= start + spec_body(self@, invalid.on@, invalid.off@));
    }

    fn print_missing(
        &self,
        out: &mut String,
        opt: &ProgramOption,
        maybe_info: &Option<Box<OwnedFlattenedOptionalDebugInfo>>,
    )
        requires
            self@ == InnerErrorView::MissingRequiredParameter(
                opt@,
                crate::error::debug_info_view(*maybe_info),
            ),
        ensures
            forall|on: Seq<char>, off: Seq<char>|
                #![trigger spec_body(self@, on, off)]
                final(out)@ == old(out)@ + spec_body(self@, on, off),
    {
        let ghost start = out@;
        print_opt_requirements(out, opt, "must be provided");
        if let Some(info) = maybe_info {
            out.append("    ");
            info.print_required_opt_context(out);
        }
        assert forall|on: Seq<char>, off: Seq<char>| #![trigger spec_body(self@, on, off)]
            out@ == start + spec_body(self@, on, off) by {
            assert(out@ =~= start + spec_body(self@, on, off));
        }
    }

    fn print_too_few(
        &self,
        out: &mut String,
        name: &String,
        prefix: &String,
        opts: &Vec<ProgramOption>,
        fields: &Vec<String>,
        maybe_info: &Option<Box<OwnedFlattenedOptionalDebugInfo>>,
    )
        requires
            self@ == InnerErrorView::TooFewArguments(
                name@,
                prefix@,
                crate::error::options_view(opts@),
                fields@.map_values(|s: String| s@),
                crate::error::debug_info_view(*maybe_info),
            ),
        ensures
            forall|on: Seq<char>, off: Seq<char>|
                #![trigger spec_body(self@, on, off)]
                final(out)@ == old(out)@ + spec_body(self@, on, off),
    {
        let ghost start = out@;
        out.append("  One of these must be provided: (constraint on ");
        out.append(name.as_str());
        append_instance_suffix(out, prefix.as_str());
        out.append("): \n");
        let ghost mid = out@;
        let n = opts.len();
        let mut i: usize = 0;
        while i < n
            invariant
                n == opts@.len(),
                i <= n,
                out@ == mid + spec_requirement_lines(
                    crate::error::options_view(opts@).take(i as int),
                ),
            decreases n - i,
        {
            assert(crate::error::options_view(opts@).take(i + 1).drop_last()
                =~= crate::error::options_view(opts@).take(i as int));
            assert(crate::error::options_view(opts@).take(i + 1).last() == opts@[i as int]@);
            proof {
                reveal_strlit("");
            }
            assert(""@ =~= Seq::<char>::empty());
            out.append("  ");
            print_opt_requirements(out, &opts[i], "");
            i = i + 1;
        }
        assert(crate::error::options_view(opts@).take(n as int) =~= crate::error::options_view(
            opts@,
        ));
        let ghost mid2 = out@;
        let ghost fv = fields@.map_values(|s: String| s@);
        let m = fields.len();
        let mut j: usize = 0;
        while j < m
            invariant
                m == fields@.len(),
                fv == fields@.map_values(|s: String| s@),
                j <= m,
                out@ == mid2 + spec_group_lines(fv.take(j as int)),
            decreases m - j,
        {
            assert(fv.take(j + 1).drop_last() =~= fv.take(j as int));
            out.append("    Argument group '");
            out.append(fields[j].as_str());
            out.append("'\n");
            j = j + 1;
        }
        assert(fv.take(m as int) =~= fv);
        if let Some(info) = maybe_info {
            out.append("  ");
            info.print_required_opt_context(out);
        }
        assert forall|on: Seq<char>, off: Seq<char>| #![trigger spec_body(self@, on, off)]
            out@ == start + spec_body(self@, on, off) by {
            assert(out@ =~= start + spec_body(self@, on, off));
        }
    }

    fn print_too_many(
        &self,
        out: &mut String,
        name: &String,
        prefix: &String,
        singles: &Vec<(ProgramOption, ConfValueSource<String>)>,
        flattened: &Vec<(String, ProgramOption, ConfValueSource<String>)>,
    )
        requires
            self@ == InnerErrorView::TooManyArguments(
                name@,
                prefix@,
                singles@.map_values(|p: (ProgramOption, ConfValueSource<String>)| (p.0@, p.1@)),
                flattened@.map_values(
                    |p: (String, ProgramOption, ConfValueSource<String>)| (p.0@, p.1@, p.2@),
                ),
            ),
        ensures
            forall|on: Seq<char>, off: Seq<char>|
                #![trigger spec_body(self@, on, off)]
                final(out)@ == old(out)@ + spec_body(self@, on, off),
    {
        let ghost start = out@;
        out.append("  Too many arguments, provide at most one of these: (constraint on ");
        out.append(name.as_str());
        append_instance_suffix(out, prefix.as_str());
        out.append("): \n");
        let ghost mid = out@;
        let ghost sv = singles@.map_values(
            |p: (ProgramOption, ConfValueSource<String>)| (p.0@, p.1@),
        );
        let n = singles.len();
        let mut i: usize = 0;
        while i < n
            invariant
                n == singles@.len(),
                sv == singles@.map_values(|p: (ProgramOption, ConfValueSource<String>)| (p.0@, p.1@)),
                i <= n,
                out@ == mid + spec_provided_lines(sv.take(i as int)),
            decreases n - i,
        {
            assert(sv.take(i + 1).drop_last() =~= sv.take(i as int));
            let provided = render_provided_opt(&singles[i].0, &singles[i].1);
            out.append("    ");
            out.append(provided.as_str());
            out.append("\n");
            i = i + 1;
        }
        assert(sv.take(n as int) =~= sv);
        let ghost mid2 = out@;
        let ghost fv = flattened@.map_values(
            |p: (String, ProgramOption, ConfValueSource<String>)| (p.0@, p.1@, p.2@),
        );
        let m = flattened.len();
        let mut j: usize = 0;
        while j < m
            invariant
                m == flattened@.len(),
                fv == flattened@.map_values(
                    |p: (String, ProgramOption, ConfValueSource<String>)| (p.0@, p.1@, p.2@),
                ),
                j <= m,
                out@ == mid2 + spec_provided_group_lines(fv.take(j as int)),
            decreases m - j,
        {
            assert(fv.take(j + 1).drop_last() =~= fv.take(j as int));
            let provided = render_provided_opt(&flattened[j].1, &flattened[j].2);
            out.append("    ");
            out.append(provided.as_str());
            out.append(" (part of argument group '");
            out.append(flattened[j].0.as_str());
            out.append("')\n");
            j = j + 1;
        }
        assert(fv.take(m as int) =~= fv);
        assert forall|on: Seq<char>, off: Seq<char>| #![trigger spec_body(self@, on, off)]
            out@ == start + spec_body(self@, on, off) by {
            assert(out@ =~= start + spec_body(self@, on, off));
        }
    }

    fn print_validation(&self, out: &mut String, name: &String, prefix: &String, err: &String)
        requires
            self@ == InnerErrorView::ValidationFailed(name@, prefix@, err@),
        ensures
            forall|on: Seq<char>, off: Seq<char>|
                #![trigger spec_body(self@, on, off)]
                final(out)@ == old(out)@ + spec_body(self@, on, off),
    {
        let ghost start = out@;
        let mut context = string_of("  ");
        context.append(name.as_str());
        context.append(" value was invalid");
        if prefix.as_str().unicode_len() != 0 {
            context.append(" (@ .");
            context.append(prefix.as_str());
            context.append(")");
        }
        let ghost spec_context = "  "@ + name@ + " value was invalid"@ + if prefix@.len() == 0 {
            Seq::<char>::empty()
        } else {
            " (@ ."@ + prefix@ + ")"@
        };
        assert(context@ =~= spec_context);
        let estimated = str_byte_len(context.as_str());
        proof {
            lemma_format_saturated(err@, byte_len(context@) + 2, estimated.saturating_add(2) as int);
        }
        let formatted = format_err_str(err.as_str(), estimated.saturating_add(2));
        out.append(context.as_str());
        out.append(": ");
        out.append(formatted.as_str());
        out.append("\n");
        assert forall|on: Seq<char>, off: Seq<char>| #![trigger spec_body(self@, on, off)]
            out@ == start + spec_body(self@, on, off) by {
            assert(out@ =~= start + spec_body(self@, on, off));
        }
    }

    fn print_invalid_value(
        &self,
        out: &mut String,
        invalid: &StyleCodes,
        value_source: &ConfValueSource<String>,
        value_str: &String,
        opt: &ProgramOption,
        err: &String,
    )
        requires
            self@ == InnerErrorView::InvalidParameterValue(value_source@, value_str@, opt@, err@),
        ensures
            final(out)@ == old(out)@ + spec_body(self@, invalid.on@, invalid.off@),
    {
        let ghost start = out@;
        let mut context = string_of("  when parsing ");
        let provided = render_provided_opt(opt, value_source);
        context.append(provided.as_str());
        context.append(" value");
        let mut estimated = str_byte_len(context.as_str());
        out.append(context.as_str());
        let secret = opt.is_secret();
        if !secret {
            out.append(" ");
            out.append(invalid.on.as_str());
            out.append("'");
            out.append(value_str.as_str());
            out.append("'");
            out.append(invalid.off.as_str());
            estimated = estimated.saturating_add(3).saturating_add(str_byte_len(value_str.as_str()));
        }
        let ghost exact = byte_len(context@) + if secret {
            0
        } else {
            3 + byte_len(value_str@)
        };
        proof {
            lemma_format_saturated(err@, exact + 2, estimated.saturating_add(2) as int);
        }
        let formatted = format_err_str(err.as_str(), estimated.saturating_add(2));
        out.append(": ");
        out.append(formatted.as_str());
        out.append("\n");
        assert(out@ =~= start + spec_body(self@, invalid.on@, invalid.off@));
    }
}

fn append_instance_suffix(out: &mut String, prefix: &str)
    ensures
        final(out)@ == old(out)@ + spec_instance_suffix(prefix@),
{
    if prefix.unicode_len() != 0 {
        let mut p = string_of(" @ .");
        p.append(prefix);
        remove_trailing_dot(&mut p);
        out.append(p.as_str());
    } else {
        assert(old(out)@ + spec_instance_suffix(prefix@) =~= old(out)@);
    }
}


/// What `format!("{:?}", chars)` returns for a slice of characters: the characters quoted,
/// escaped, comma-separated and bracketed.
pub uninterp spec fn debug_char_list(chars: Seq<char>) -> Seq<char>;

/// The `Debug` rendering of a slice of characters (std `format!("{:?}")`). The contract only
/// names the result.
#[verifier::external_body]
fn debug_chars(chars: &[char]) -> (r: String)
    ensures
        r@ == debug_char_list(chars@),
{
    format!("{:?}", chars)
}

/// The message of the error reported when a flattening's `skip_short` list names short
/// switches that the flattened structure does not have.
pub fn skip_short_not_found_message(
    not_found_chars: &[char],
    field_name: &str,
    field_type_name: &str,
) -> (r: String)
    ensures
        r@ == "Internal error (invalid skip short)\n  When flattening "@ + field_type_name@ + " at "@
            + field_name@ + ", these short options were not found: "@ + debug_char_list(
            not_found_chars@,
        ) + "\n  To fix this error, remove them from the skip_short attribute list."@,
{
    let mut r = string_of("Internal error (invalid skip short)\n  When flattening ");
    r.append(field_type_name);
    r.append(" at ");
    r.append(field_name);
    r.append(", these short options were not found: ");
    let d = debug_chars(not_found_chars);
    r.append(d.as_str());
    r.append("\n  To fix this error, remove them from the skip_short attribute list.");
    r
}

} // verus!
