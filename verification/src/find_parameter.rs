//! Finding the value of one long-form parameter on the command line before the main parse,
//! e.g. the path of a config file.
use vstd::prelude::*;
use vstd::utf8::{valid_utf8, decode_utf8};
use crate::text::{str_eq, utf8_str};

verus! {

/// Whether an argument is the escape `--`, after which nothing is a switch.
pub open spec fn spec_is_escape(a: Seq<u8>) -> bool {
    a == seq![45u8, 45u8]
}

/// The index of the first `=` in `s`, if any.
pub open spec fn first_eq_index(s: Seq<u8>) -> Option<int>
    decreases s.len(),
{
    if s.len() == 0 {
        None
    } else {
        match first_eq_index(s.drop_last()) {
            Some(i) => Some(i),
            None => if s.last() == 61u8 {
                Some(s.len() - 1)
            } else {
                None
            },
        }
    }
}

/// An argument read as a long switch: for `--flag=value`, the flag (as text if it is UTF-8)
/// and the value; for `--flag`, the flag and no value; none if the argument does not start
/// with `--` or is the escape `--` itself.
pub open spec fn spec_to_long(a: Seq<u8>) -> Option<(Option<Seq<char>>, Option<Seq<u8>>)> {
    if a.len() > 2 && a[0] == 45u8 && a[1] == 45u8 {
        let rem = a.skip(2);
        let (flag, value) = match first_eq_index(rem) {
            Some(k) => (rem.take(k), Some(rem.skip(k + 1))),
            None => (rem, None),
        };
        Some(
            (
                if valid_utf8(flag) {
                    Some(decode_utf8(flag))
                } else {
                    None
                },
                value,
            ),
        )
    } else {
        None
    }
}

/// The value of the parameter `name` found by scanning the arguments from index `i`: at the
/// first long switch `--name`, its inline value (`--name=value`) or else the next argument,
/// if any; none if the escape `--` comes first or the switch never appears.
pub open spec fn spec_find_from(args: Seq<Seq<u8>>, name: Seq<char>, i: int) -> Option<Seq<u8>>
    decreases args.len() - i,
{
    if i < 0 || i >= args.len() {
        None
    } else if spec_is_escape(args[i]) {
        None
    } else {
        match spec_to_long(args[i]) {
            Some((Some(flag), value)) if flag == name => match value {
                Some(v) => Some(v),
                None => if i + 1 < args.len() {
                    Some(args[i + 1])
                } else {
                    None
                },
            },
            _ => spec_find_from(args, name, i + 1),
        }
    }
}

/// The value of the parameter `name` on a command line whose first argument is the binary.
pub open spec fn spec_find_parameter(args: Seq<Seq<u8>>, name: Seq<char>) -> Option<Seq<u8>> {
    spec_find_from(args, name, 1)
}

fn is_escape(a: &[u8]) -> (r: bool)
    ensures
        r == spec_is_escape(a@),
{
    if a.len() == 2 && a[0] == 45u8 && a[1] == 45u8 {
        assert(a@ =~= seq![45u8, 45u8]);
        true
    } else {
        false
    }
}

fn find_eq(s: &[u8]) -> (r: Option<usize>)
    ensures
        match r {
            Some(k) => first_eq_index(s@) == Some(k as int),
            None => first_eq_index(s@) is None,
        },
{
    let n = s.len();
    let mut i: usize = 0;
    while i < n
        invariant
            n == s@.len(),
            i <= n,
            first_eq_index(s@.take(i as int)) is None,
        decreases n - i,
    {
        assert(s@.take(i + 1).drop_last() =~= s@.take(i as int));
        if s[i] == 61u8 {
            proof {
                lemma_first_eq_prefix(s@, i as int + 1);
            }
            return Some(i);
        }
        i = i + 1;
    }
    assert(s@.take(n as int) =~= s@);
    None
}

proof fn lemma_first_eq_range(s: Seq<u8>)
    ensures
        first_eq_index(s) matches Some(k) ==> 0 <= k < s.len() && s[k] == 61u8,
    decreases s.len(),
{
    if s.len() > 0 {
        lemma_first_eq_range(s.drop_last());
    }
}

proof fn lemma_first_eq_prefix(s: Seq<u8>, k: int)
    requires
        0 < k <= s.len(),
        first_eq_index(s.take(k)) == Some(k - 1),
    ensures
        first_eq_index(s) == Some(k - 1),
    decreases s.len(),
{
    if k < s.len() {
        assert(s.drop_last().take(k) =~= s.take(k));
        lemma_first_eq_prefix(s.drop_last(), k);
    } else {
        assert(s.take(k) =~= s);
    }
}

fn to_long(a: &[u8]) -> (r: Option<(Option<&str>, Option<&[u8]>)>)
    ensures
        match r {
            Some((flag, value)) => spec_to_long(a@) == Some(
                (
                    match flag {
                        Some(f) => Some(f@),
                        None => None,
                    },
                    match value {
                        Some(v) => Some(v@),
                        None => None,
                    },
                ),
            ),
            None => spec_to_long(a@) is None,
        },
{
    if a.len() > 2 && a[0] == 45u8 && a[1] == 45u8 {
        let rem = vstd::slice::slice_subrange(a, 2, a.len());
        assert(rem@ =~= a@.skip(2));
        let (flag, value) = match find_eq(rem) {
            Some(k) => {
                proof {
                    lemma_first_eq_range(rem@);
                }
                let f = vstd::slice::slice_subrange(rem, 0, k);
                let v = vstd::slice::slice_subrange(rem, k + 1, rem.len());
                assert(f@ =~= rem@.take(k as int));
                assert(v@ =~= rem@.skip(k + 1));
                (f, Some(v))
            },
            None => (rem, None),
        };
        Some((utf8_str(flag), value))
    } else {
        None
    }
}

/// Finds the value of the long-form parameter `name` on a command line (the first argument
/// is the binary and is skipped), before the main parse: the value of the first `--name=value`
/// or `--name value` found, scanning left to right. Returns none if the escape `--` comes
/// first, if the parameter does not appear, or if `--name` is the last argument; the main
/// parse reports such errors.
pub fn find_parameter(name: &str, args_os: &[Vec<u8>]) -> (r: Option<Vec<u8>>)
    ensures
        match r {
            Some(v) => spec_find_parameter(args_os@.map_values(|a: Vec<u8>| a@), name@) == Some(v@),
            None => spec_find_parameter(args_os@.map_values(|a: Vec<u8>| a@), name@) is None,
        },
{
    let ghost args = args_os@.map_values(|a: Vec<u8>| a@);
    let n = args_os.len();
    let mut i: usize = 1;
    while i < n
        invariant
            n == args_os@.len(),
            args == args_os@.map_values(|a: Vec<u8>| a@),
            1 <= i,
            spec_find_parameter(args, name@) == spec_find_from(args, name@, i as int),
        decreases n - i,
    {
        let arg = args_os[i].as_slice();
        assert(args[i as int] == arg@);
        if is_escape(arg) {
            return None;
        }
        match to_long(arg) {
            Some((Some(flag), value)) => {
                if str_eq(flag, name) {
                    return match value {
                        Some(v) => Some(vstd::slice::slice_to_vec(v)),
                        None => if i + 1 < n {
                            assert(args[i + 1] == args_os@[i + 1]@);
                            Some(vstd::slice::slice_to_vec(args_os[i + 1].as_slice()))
                        } else {
                            None
                        },
                    };
                }
            },
            _ => {},
        }
        i = i + 1;
    }
    None
}

} // verus!
