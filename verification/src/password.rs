//! A password string which is never shown in display or debug output, and is zeroed when it
//! is dropped.
use vstd::prelude::*;
use zeroize::Zeroize;
use crate::text::string_of;

verus! {

/// A wrapper around a password string which does not show the password in its display text.
#[derive(Clone)]
pub struct Password(String);

/// `zeroize::Zeroize::zeroize` on a `String`: overwrites the bytes with zeros and sets the
/// length to zero, so the string is empty afterwards.
#[verifier::external_body]
fn zeroize_string(s: &mut String)
    ensures
        final(s)@ == Seq::<char>::empty(),
    opens_invariants none
    no_unwind
{
    s.zeroize();
}

impl Password {
    /// The characters of the password.
    pub closed spec fn spec_secret(&self) -> Seq<char> {
        self.0@
    }

    /// A password holding this text.
    pub fn new(s: String) -> (r: Password)
        ensures
            r.spec_secret() == s@,
    {
        Password(s)
    }

    /// The password text.
    pub fn as_str(&self) -> (r: &str)
        ensures
            r@ == self.spec_secret(),
    {
        self.0.as_str()
    }

    /// The text shown in place of the password in display and debug output.
    pub fn display_text(&self) -> (r: &'static str)
        ensures
            r@ == "***password***"@,
    {
        "***password***"
    }

    /// Erases the password text.
    pub fn zeroize(&mut self)
        ensures
            final(self).spec_secret() == Seq::<char>::empty(),
        opens_invariants none
        no_unwind
    {
        zeroize_string(&mut self.0);
    }
}

impl vstd::std_specs::convert::FromSpecImpl<String> for Password {
    open spec fn obeys_from_spec() -> bool {
        true
    }

    closed spec fn from_spec(s: String) -> Self {
        Password(s)
    }
}

impl vstd::std_specs::convert::FromSpecImpl<&str> for Password {
    open spec fn obeys_from_spec() -> bool {
        false
    }

    open spec fn from_spec(s: &str) -> Self {
        choose|p: Password| p.spec_secret() == s@
    }
}

impl From<String> for Password {
    /// A password holding this text.
    fn from(s: String) -> (r: Self)
        ensures
            r.spec_secret() == s@,
    {
        Password(s)
    }
}

impl From<&str> for Password {
    /// A password holding a copy of this text.
    fn from(s: &str) -> (r: Self)
        ensures
            r.spec_secret() == s@,
    {
        Password(string_of(s))
    }
}

impl core::str::FromStr for Password {
    type Err = core::convert::Infallible;

    /// Never fails: the password holds the text.
    fn from_str(s: &str) -> (r: Result<Self, Self::Err>)
        ensures
            r matches Ok(p) && p.spec_secret() == s@,
    {
        Ok(Password(string_of(s)))
    }
}

impl Drop for Password {
    fn drop(&mut self)
        opens_invariants none
        no_unwind
    {
        zeroize_string(&mut self.0);
    }
}

} // verus!
