//! Shell names for which completion scripts can be generated.
use vstd::prelude::*;
use crate::naming::{spec_trim, trim};
use crate::text::{push_char, string_of};

verus! {

/// Shells that provide autocompletion support.
#[derive(Clone, Copy, Debug, PartialEq, Eq, Hash, Structural)]
pub enum Shell {
    /// Bourne Again shell (bash)
    Bash,
    /// Elvish shell
    Elvish,
    /// Friendly Interactive Shell (fish)
    Fish,
    /// PowerShell
    PowerShell,
    /// Z shell (zsh)
    Zsh,
}

/// The name of a shell, as it is displayed and parsed.
pub open spec fn shell_name(s: Shell) -> Seq<char> {
    match s {
        Shell::Bash => "bash"@,
        Shell::Elvish => "elvish"@,
        Shell::Fish => "fish"@,
        Shell::PowerShell => "powershell"@,
        Shell::Zsh => "zsh"@,
    }
}

/// The ASCII-lowercase form of a character (std `char::to_ascii_lowercase`).
pub open spec fn ascii_lower(c: char) -> char {
    if 'A' <= c && c <= 'Z' {
        ((c as u32) + 32) as char
    } else {
        c
    }
}

/// The ASCII-lowercase form of a text (std `str::to_ascii_lowercase`): ASCII capitals become
/// small letters, everything else is unchanged.
pub open spec fn spec_ascii_lowercase(s: Seq<char>) -> Seq<char> {
    s.map_values(|c: char| ascii_lower(c))
}

/// The ASCII-lowercase form of a text (std `str::to_ascii_lowercase`).
pub fn to_ascii_lowercase(s: &str) -> (r: String)
    ensures
        r@ == spec_ascii_lowercase(s@),
{
    let n = s.unicode_len();
    let mut out = String::new();
    let mut i: usize = 0;
    while i < n
        invariant
            n == s@.len(),
            i <= n,
            out@ == spec_ascii_lowercase(s@.take(i as int)),
        decreases n - i,
    {
        let c = s.get_char(i);
        let l = if 'A' <= c && c <= 'Z' {
            let code: u8 = (c as u8) + 32;
            code as char
        } else {
            c
        };
        assert(l == ascii_lower(c));
        push_char(&mut out, l);
        assert(spec_ascii_lowercase(s@.take(i + 1)) =~= spec_ascii_lowercase(s@.take(i as int)).push(l));
        i = i + 1;
    }
    assert(s@.take(n as int) =~= s@);
    out
}

/// The shell named by a text, after trimming whitespace and ignoring ASCII letter case.
pub open spec fn spec_parse_shell(s: Seq<char>) -> Option<Shell> {
    let v = spec_ascii_lowercase(spec_trim(s));
    if v == "bash"@ {
        Some(Shell::Bash)
    } else if v == "elvish"@ {
        Some(Shell::Elvish)
    } else if v == "fish"@ {
        Some(Shell::Fish)
    } else if v == "powershell"@ {
        Some(Shell::PowerShell)
    } else if v == "zsh"@ {
        Some(Shell::Zsh)
    } else {
        None
    }
}

/// What `format!("{:?}", s)` returns for a string with these characters: the string quoted
/// and escaped.
pub uninterp spec fn debug_quoted(s: Seq<char>) -> Seq<char>;

/// The `Debug` rendering of a `str` (std `format!("{:?}")`): quoted, with escapes. The
/// contract only names the result.
#[verifier::external_body]
pub(crate) fn debug_str(s: &str) -> (r: String)
    ensures
        r@ == debug_quoted(s@),
{
    format!("{:?}", s)
}

/// The error of a text that names no supported shell.
#[derive(Debug, Clone)]
pub struct ParseShellError {
    input: String,
}

impl ParseShellError {
    /// The text that was not a shell name.
    pub closed spec fn spec_input(&self) -> Seq<char> {
        self.input@
    }

    /// The message of the error: the rejected text, quoted, and the accepted names.
    pub fn to_string(&self) -> (r: String)
        ensures
            r@ == "invalid shell "@ + debug_quoted(self.spec_input())
                + " (expected: bash, elvish, fish, powershell, zsh)"@,
    {
        let mut r = string_of("invalid shell ");
        let q = debug_str(self.input.as_str());
        r.append(q.as_str());
        r.append(" (expected: bash, elvish, fish, powershell, zsh)");
        r
    }
}

fn is(s: &String, lit: &str) -> (r: bool)
    ensures
        r == (s@ == lit@),
{
    crate::text::str_eq(s.as_str(), lit)
}

impl Shell {
    /// The name of the shell, as it is displayed.
    pub fn name(&self) -> (r: &'static str)
        ensures
            r@ == shell_name(*self),
    {
        match self {
            Shell::Bash => "bash",
            Shell::Elvish => "elvish",
            Shell::Fish => "fish",
            Shell::PowerShell => "powershell",
            Shell::Zsh => "zsh",
        }
    }

    /// Parses a shell name, ignoring surrounding whitespace and ASCII letter case; an error
    /// holding the text if it names no supported shell.
    pub fn parse(s: &str) -> (r: Result<Shell, ParseShellError>)
        ensures
            match spec_parse_shell(s@) {
                Some(sh) => r == Ok::<Shell, ParseShellError>(sh),
                None => r matches Err(e) && e.spec_input() == s@,
            },
    {
        let t = trim(s);
        let v = to_ascii_lowercase(t.as_str());
        if is(&v, "bash") {
            Ok(Shell::Bash)
        } else if is(&v, "elvish") {
            Ok(Shell::Elvish)
        } else if is(&v, "fish") {
            Ok(Shell::Fish)
        } else if is(&v, "powershell") {
            Ok(Shell::PowerShell)
        } else if is(&v, "zsh") {
            Ok(Shell::Zsh)
        } else {
            Err(ParseShellError { input: string_of(s) })
        }
    }
}

impl core::str::FromStr for Shell {
    type Err = ParseShellError;

    /// The same as `Shell::parse`.
    fn from_str(s: &str) -> (r: Result<Self, Self::Err>)
        ensures
            match spec_parse_shell(s@) {
                Some(sh) => r == Ok::<Shell, ParseShellError>(sh),
                None => r matches Err(e) && e.spec_input() == s@,
            },
    {
        Shell::parse(s)
    }
}

} // verus!
