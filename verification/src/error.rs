//! The problems that can occur while reading configuration values, and their rendering.
use vstd::prelude::*;
use crate::conf_context::ConfValueSource;
use crate::program_option::{ProgramOption, ProgramOptionView};
use crate::text::{string_of, lossy_string, utf8_lossy};

verus! {

/// Why an option became required: the flattened-optional group that was enabled, and the
/// option whose appearance enabled it.
#[derive(Debug)]
pub struct OwnedFlattenedOptionalDebugInfo {
    pub struct_name: String,
    pub id_prefix: String,
    pub option_appeared: Box<ProgramOption>,
    pub value_source: ConfValueSource<String>,
}

/// The content of an `OwnedFlattenedOptionalDebugInfo`.
pub struct DebugInfoView {
    pub struct_name: Seq<char>,
    pub id_prefix: Seq<char>,
    pub option_appeared: ProgramOptionView,
    pub value_source: ConfValueSource<Seq<char>>,
}

impl View for OwnedFlattenedOptionalDebugInfo {
    type V = DebugInfoView;

    open spec fn view(&self) -> DebugInfoView {
        DebugInfoView {
            struct_name: self.struct_name@,
            id_prefix: self.id_prefix@,
            option_appeared: (*self.option_appeared)@,
            value_source: self.value_source@,
        }
    }
}

/// A single problem that occurs when reading the environment, running a value parser, or
/// running a validation predicate.
#[derive(Debug)]
pub enum InnerError {
    /// A required value was not provided: the option, and why it was required if it is part
    /// of an enabled flattened-optional group.
    MissingRequiredParameter(Box<ProgramOption>, Option<Box<OwnedFlattenedOptionalDebugInfo>>),
    /// A value could not be parsed: its source, its text, the option, the parser's message.
    InvalidParameterValue(ConfValueSource<String>, String, Box<ProgramOption>, String),
    /// None of a one-of constraint's options was provided: the struct name, the instance id
    /// prefix, the single options and flattened field names of the constraint, and why the
    /// constraint applies if it is part of an enabled flattened-optional group.
    TooFewArguments(
        String,
        String,
        Vec<ProgramOption>,
        Vec<String>,
        Option<Box<OwnedFlattenedOptionalDebugInfo>>,
    ),
    /// More than one of an at-most-one constraint's options was provided: the struct name,
    /// the instance id prefix, the single options that appeared with their sources, and the
    /// flattened fields with the option that appeared in each.
    TooManyArguments(
        String,
        String,
        Vec<(ProgramOption, ConfValueSource<String>)>,
        Vec<(String, ProgramOption, ConfValueSource<String>)>,
    ),
    /// A validation predicate failed: the struct name, the instance id prefix, the message.
    ValidationFailed(String, String, String),
    /// An environment variable that was read is not UTF-8: its name, the option, and its
    /// bytes unless the option is secret.
    InvalidUtf8Env(String, Box<ProgramOption>, Option<Vec<u8>>),
}

/// The content of an `InnerError`.
pub enum InnerErrorView {
    MissingRequiredParameter(ProgramOptionView, Option<DebugInfoView>),
    InvalidParameterValue(ConfValueSource<Seq<char>>, Seq<char>, ProgramOptionView, Seq<char>),
    TooFewArguments(
        Seq<char>,
        Seq<char>,
        Seq<ProgramOptionView>,
        Seq<Seq<char>>,
        Option<DebugInfoView>,
    ),
    TooManyArguments(
        Seq<char>,
        Seq<char>,
        Seq<(ProgramOptionView, ConfValueSource<Seq<char>>)>,
        Seq<(Seq<char>, ProgramOptionView, ConfValueSource<Seq<char>>)>,
    ),
    ValidationFailed(Seq<char>, Seq<char>, Seq<char>),
    InvalidUtf8Env(Seq<char>, ProgramOptionView, Option<Seq<u8>>),
}

/// The content of an optional boxed debug info.
pub open spec fn debug_info_view(d: Option<Box<OwnedFlattenedOptionalDebugInfo>>) -> Option<
    DebugInfoView,
> {
    match d {
        Some(b) => Some((*b)@),
        None => None,
    }
}

/// The content of each option of a list.
pub open spec fn options_view(v: Seq<ProgramOption>) -> Seq<ProgramOptionView> {
    v.map_values(|o: ProgramOption| o@)
}

impl View for InnerError {
    type V = InnerErrorView;

    open spec fn view(&self) -> InnerErrorView {
        match self {
            InnerError::MissingRequiredParameter(o, d) => InnerErrorView::MissingRequiredParameter(
                (**o)@,
                debug_info_view(*d),
            ),
            InnerError::InvalidParameterValue(src, val, o, msg) =>
                InnerErrorView::InvalidParameterValue(src@, val@, (**o)@, msg@),
            InnerError::TooFewArguments(name, prefix, opts, fields, d) =>
                InnerErrorView::TooFewArguments(
                name@,
                prefix@,
                options_view(opts@),
                fields@.map_values(|s: String| s@),
                debug_info_view(*d),
            ),
            InnerError::TooManyArguments(name, prefix, singles, flattened) =>
                InnerErrorView::TooManyArguments(
                name@,
                prefix@,
                singles@.map_values(
                    |p: (ProgramOption, ConfValueSource<String>)| (p.0@, p.1@),
                ),
                flattened@.map_values(
                    |p: (String, ProgramOption, ConfValueSource<String>)| (p.0@, p.1@, p.2@),
                ),
            ),
            InnerError::ValidationFailed(name, prefix, msg) => InnerErrorView::ValidationFailed(
                name@,
                prefix@,
                msg@,
            ),
            InnerError::InvalidUtf8Env(name, o, v) => InnerErrorView::InvalidUtf8Env(
                name@,
                (**o)@,
                match v {
                    Some(b) => Some(b@),
                    None => None,
                },
            ),
        }
    }
}

impl InnerError {
    /// An invalid-value error: the source and text of the value, the option, and the value
    /// parser's message.
    pub fn invalid_value(
        conf_value_source: ConfValueSource<&str>,
        value_str: &str,
        program_option: &ProgramOption,
        err: &str,
    ) -> (r: Self)
        ensures
            r@ == InnerErrorView::InvalidParameterValue(
                conf_value_source@,
                value_str@,
                program_option@,
                err@,
            ),
    {
        InnerError::InvalidParameterValue(
            conf_value_source.into_owned(),
            string_of(value_str),
            Box::new(program_option.duplicate()),
            string_of(err),
        )
    }

    /// An invalid-value error for a value given as raw bytes, shown with invalid UTF-8
    /// replaced.
    pub fn invalid_value_os(
        conf_value_source: ConfValueSource<&str>,
        value: &[u8],
        program_option: &ProgramOption,
        err: &str,
    ) -> (r: Self)
        ensures
            r@ == InnerErrorView::InvalidParameterValue(
                conf_value_source@,
                utf8_lossy(value@),
                program_option@,
                err@,
            ),
    {
        InnerError::InvalidParameterValue(
            conf_value_source.into_owned(),
            lossy_string(value),
            Box::new(program_option.duplicate()),
            string_of(err),
        )
    }

    /// A validation error: the struct name, the instance id prefix and the message.
    pub fn validation(struct_name: &str, instance_id_prefix: &str, err: &str) -> (r: Self)
        ensures
            r@ == InnerErrorView::ValidationFailed(struct_name@, instance_id_prefix@, err@),
    {
        InnerError::ValidationFailed(
            string_of(struct_name),
            string_of(instance_id_prefix),
            string_of(err),
        )
    }

    /// An error for an environment variable that is not UTF-8.
    pub fn invalid_utf8_env(env_var: &str, program_option: &ProgramOption, val: Option<&Vec<u8>>) -> (r: Self)
        ensures
            r@ == InnerErrorView::InvalidUtf8Env(
                env_var@,
                program_option@,
                match val {
                    Some(b) => Some(b@),
                    None => None,
                },
            ),
    {
        InnerError::InvalidUtf8Env(
            string_of(env_var),
            Box::new(program_option.duplicate()),
            match val {
                Some(b) => Some(vstd::slice::slice_to_vec(b.as_slice())),
                None => None,
            },
        )
    }
}


/// The content of each borrowed option of a list.
pub open spec fn option_refs_view(v: Seq<&ProgramOption>) -> Seq<ProgramOptionView> {
    v.map_values(|o: &ProgramOption| (*o)@)
}

impl InnerError {
    /// A too-few-arguments error: the constraint's struct name, the instance id prefix, its
    /// single options, its flattened field names, and why it applies.
    pub(crate) fn too_few_arguments(
        struct_name: &str,
        instance_id_prefix: &str,
        constraint_single_options: &[&ProgramOption],
        constraint_flattened_ids: &[&str],
        flattened_optional_debug_info: Option<Box<OwnedFlattenedOptionalDebugInfo>>,
    ) -> (r: Self)
        ensures
            r@ == InnerErrorView::TooFewArguments(
                struct_name@,
                instance_id_prefix@,
                option_refs_view(constraint_single_options@),
                constraint_flattened_ids@.map_values(|s: &str| s@),
                debug_info_view(flattened_optional_debug_info),
            ),
    {
        let mut opts: Vec<ProgramOption> = Vec::new();
        let n = constraint_single_options.len();
        let mut i: usize = 0;
        while i < n
            invariant
                n == constraint_single_options@.len(),
                i <= n,
                opts@.len() == i,
                forall|k: int| 0 <= k < i ==> #[trigger] opts@[k]@ == (*constraint_single_options@[k])@,
            decreases n - i,
        {
            opts.push(constraint_single_options[i].duplicate());
            i = i + 1;
        }
        let mut ids: Vec<String> = Vec::new();
        let m = constraint_flattened_ids.len();
        let mut j: usize = 0;
        while j < m
            invariant
                m == constraint_flattened_ids@.len(),
                j <= m,
                ids@.len() == j,
                forall|k: int| 0 <= k < j ==> #[trigger] ids@[k]@ == constraint_flattened_ids@[k]@,
            decreases m - j,
        {
            ids.push(string_of(constraint_flattened_ids[j]));
            j = j + 1;
        }
        assert(options_view(opts@) =~= option_refs_view(constraint_single_options@));
        assert(ids@.map_values(|s: String| s@) =~= constraint_flattened_ids@.map_values(|s: &str| s@));
        InnerError::TooFewArguments(
            string_of(struct_name),
            string_of(instance_id_prefix),
            opts,
            ids,
            flattened_optional_debug_info,
        )
    }

    /// A too-many-arguments error: the constraint's struct name, the instance id prefix, the
    /// single options that appeared with their sources, and the flattened fields with the
    /// option that appeared in each and its source.
    pub(crate) fn too_many_arguments(
        struct_name: &str,
        instance_id_prefix: &str,
        constraint_single_options: &[(&ProgramOption, ConfValueSource<&str>)],
        constraint_flattened_data: &[(&str, &ProgramOption, ConfValueSource<&str>)],
    ) -> (r: Self)
        ensures
            r@ == InnerErrorView::TooManyArguments(
                struct_name@,
                instance_id_prefix@,
                constraint_single_options@.map_values(
                    |p: (&ProgramOption, ConfValueSource<&str>)| ((*p.0)@, p.1@),
                ),
                constraint_flattened_data@.map_values(
                    |p: (&str, &ProgramOption, ConfValueSource<&str>)| (p.0@, (*p.1)@, p.2@),
                ),
            ),
    {
        let mut singles: Vec<(ProgramOption, ConfValueSource<String>)> = Vec::new();
        let n = constraint_single_options.len();
        let mut i: usize = 0;
        while i < n
            invariant
                n == constraint_single_options@.len(),
                i <= n,
                singles@.len() == i,
                forall|k: int|
                    0 <= k < i ==> (#[trigger] singles@[k]).0@ == (*constraint_single_options@[k].0)@
                        && singles@[k].1@ == constraint_single_options@[k].1@,
            decreases n - i,
        {
            let (opt, src) = &constraint_single_options[i];
            singles.push((opt.duplicate(), src.copy().into_owned()));
            i = i + 1;
        }
        let mut flattened: Vec<(String, ProgramOption, ConfValueSource<String>)> = Vec::new();
        let m = constraint_flattened_data.len();
        let mut j: usize = 0;
        while j < m
            invariant
                m == constraint_flattened_data@.len(),
                j <= m,
                flattened@.len() == j,
                forall|k: int|
                    0 <= k < j ==> (#[trigger] flattened@[k]).0@ == constraint_flattened_data@[k].0@
                        && flattened@[k].1@ == (*constraint_flattened_data@[k].1)@
                        && flattened@[k].2@ == constraint_flattened_data@[k].2@,
            decreases m - j,
        {
            let (field, opt, src) = &constraint_flattened_data[j];
            flattened.push((string_of(field), opt.duplicate(), src.copy().into_owned()));
            j = j + 1;
        }
        let r = InnerError::TooManyArguments(
            string_of(struct_name),
            string_of(instance_id_prefix),
            singles,
            flattened,
        );
        assert(r@ == InnerErrorView::TooManyArguments(
            struct_name@,
            instance_id_prefix@,
            constraint_single_options@.map_values(
                |p: (&ProgramOption, ConfValueSource<&str>)| ((*p.0)@, p.1@),
            ),
            constraint_flattened_data@.map_values(
                |p: (&str, &ProgramOption, ConfValueSource<&str>)| (p.0@, (*p.1)@, p.2@),
            ),
        )) by {
            assert(singles@.map_values(
                |p: (ProgramOption, ConfValueSource<String>)| (p.0@, p.1@),
            ) =~= constraint_single_options@.map_values(
                |p: (&ProgramOption, ConfValueSource<&str>)| ((*p.0)@, p.1@),
            ));
            assert(flattened@.map_values(
                |p: (String, ProgramOption, ConfValueSource<String>)| (p.0@, p.1@, p.2@),
            ) =~= constraint_flattened_data@.map_values(
                |p: (&str, &ProgramOption, ConfValueSource<&str>)| (p.0@, (*p.1)@, p.2@),
            ));
        }
        r
    }
}

} // verus!
