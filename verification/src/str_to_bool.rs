//! Reading a boolean from an environment variable's text.
use vstd::prelude::*;
use crate::text::{lowercase, to_lowercase};

verus! {

/// The lowercase spellings that read as `false`.
pub open spec fn is_false_word(w: Seq<char>) -> bool {
    ||| w == Seq::<char>::empty()
    ||| w == seq!['0']
    ||| w == seq!['n']
    ||| w == seq!['n', 'o']
    ||| w == seq!['f']
    ||| w == seq!['f', 'a', 'l', 's', 'e']
    ||| w == seq!['o', 'f', 'f']
}

/// A value reads as `true` unless its lowercase form is one of the false spellings.
pub open spec fn spec_str_to_bool(s: Seq<char>) -> bool {
    !is_false_word(lowercase(s))
}

fn eq_chars(s: &str, w: &[char]) -> (r: bool)
    ensures
        r == (s@ == w@),
{
    let n = s.unicode_len();
    if n != w.len() {
        return false;
    }
    let mut i: usize = 0;
    while i < n
        invariant
            n == s@.len(),
            n == w@.len(),
            i <= n,
            forall|j: int| 0 <= j < i ==> s@[j] == w@[j],
        decreases n - i,
    {
        if s.get_char(i) != w[i] {
            return false;
        }
        i = i + 1;
    }
    assert(s@ =~= w@);
    true
}

/// Interprets a string as a boolean: the empty string and (in any letter case) "0", "n",
/// "no", "f", "false" and "off" are false; everything else is true.
pub fn str_to_bool(src: &str) -> (r: bool)
    ensures
        r == spec_str_to_bool(src@),
{
    let lower = to_lowercase(src);
    let l = lower.as_str();
    let w0: [char; 1] = ['0'];
    let wn: [char; 1] = ['n'];
    let wno: [char; 2] = ['n', 'o'];
    let wf: [char; 1] = ['f'];
    let wfalse: [char; 5] = ['f', 'a', 'l', 's', 'e'];
    let woff: [char; 3] = ['o', 'f', 'f'];
    let wempty: [char; 0] = [];
    assert(w0@ =~= seq!['0']);
    assert(wn@ =~= seq!['n']);
    assert(wno@ =~= seq!['n', 'o']);
    assert(wf@ =~= seq!['f']);
    assert(wfalse@ =~= seq!['f', 'a', 'l', 's', 'e']);
    assert(woff@ =~= seq!['o', 'f', 'f']);
    assert(wempty@ =~= Seq::<char>::empty());
    let is_false = eq_chars(l, &wempty)
        || eq_chars(l, &w0)
        || eq_chars(l, &wn)
        || eq_chars(l, &wno)
        || eq_chars(l, &wf)
        || eq_chars(l, &wfalse)
        || eq_chars(l, &woff);
    !is_false
}

} // verus!
