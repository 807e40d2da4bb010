//! Terminal styling of help text.
use vstd::prelude::*;
use anstyle::Style;

verus! {

/// Terminal styling of help text: a wrapper around `clap::builder::Styles`, so that the
/// public interface does not expose clap.
pub struct HelpStyles(clap::builder::Styles);

impl HelpStyles {
    /// `clap::builder::Styles::plain`: no terminal coloring.
    #[verifier::external_body]
    pub fn plain() -> Self {
        Self(clap::builder::Styles::plain())
    }

    /// `clap::builder::Styles::styled`: the default terminal coloring.
    #[verifier::external_body]
    pub fn styled() -> Self {
        Self(clap::builder::Styles::styled())
    }

    /// `clap::builder::Styles::header`: the style of general headings.
    #[verifier::external_body]
    pub fn header(self, style: Style) -> Self {
        Self(self.0.header(style))
    }

    /// `clap::builder::Styles::error`: the style of error messages.
    #[verifier::external_body]
    pub fn error(self, style: Style) -> Self {
        Self(self.0.error(style))
    }

    /// `clap::builder::Styles::usage`: the style of usage headings.
    #[verifier::external_body]
    pub fn usage(self, style: Style) -> Self {
        Self(self.0.usage(style))
    }

    /// `clap::builder::Styles::literal`: the style of command syntax (e.g. `--help`).
    #[verifier::external_body]
    pub fn literal(self, style: Style) -> Self {
        Self(self.0.literal(style))
    }

    /// `clap::builder::Styles::placeholder`: the style of value names (e.g. `<FILE>`).
    #[verifier::external_body]
    pub fn placeholder(self, style: Style) -> Self {
        Self(self.0.placeholder(style))
    }

    /// `clap::builder::Styles::valid`: the style of suggested correct usage.
    #[verifier::external_body]
    pub fn valid(self, style: Style) -> Self {
        Self(self.0.valid(style))
    }

    /// `clap::builder::Styles::invalid`: the style of incorrect usage.
    #[verifier::external_body]
    pub fn invalid(self, style: Style) -> Self {
        Self(self.0.invalid(style))
    }

    /// A copy of these styles (`Clone` of `clap::builder::Styles`).
    #[verifier::external_body]
    pub fn duplicate(&self) -> Self {
        Self(self.0.clone())
    }

    /// The clap styles that these styles hold.
    pub closed spec fn spec_clap_styles(&self) -> clap::builder::Styles {
        self.0
    }

    /// The clap styles inside.
    pub fn into_clap_styles(self) -> (r: clap::builder::Styles)
        ensures
            r == self.spec_clap_styles(),
    {
        self.0
    }
}

} // verus!
