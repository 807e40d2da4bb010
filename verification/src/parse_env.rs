//! A searchable snapshot of environment variables.
use vstd::prelude::*;
use vstd::utf8::{valid_utf8, decode_utf8};
use crate::text::{lossy_string, utf8_lossy, utf8_str, str_eq};

verus! {

/// Environment variables by name. Names are text; values are kept as raw bytes, since a
/// value that is not UTF-8 is only an error if it is actually read.
pub struct ParsedEnv {
    entries: Vec<(String, Vec<u8>)>,
}

/// The value that a list of raw (name, value) pairs gives the variable `name`: the value of
/// the last pair whose name bytes are UTF-8 text equal to `name`.
pub open spec fn pairs_lookup(pairs: Seq<(Seq<u8>, Seq<u8>)>, name: Seq<char>) -> Option<Seq<u8>>
    decreases pairs.len(),
{
    if pairs.len() == 0 {
        None
    } else {
        let last = pairs.last();
        if valid_utf8(last.0) && decode_utf8(last.0) == name {
            Some(last.1)
        } else {
            pairs_lookup(pairs.drop_last(), name)
        }
    }
}

/// The raw pairs as sequences.
pub open spec fn pairs_view(pairs: Seq<(Vec<u8>, Vec<u8>)>) -> Seq<(Seq<u8>, Seq<u8>)> {
    pairs.map_values(|p: (Vec<u8>, Vec<u8>)| (p.0@, p.1@))
}

spec fn entries_lookup(entries: Seq<(String, Vec<u8>)>, name: Seq<char>) -> Option<Seq<u8>>
    decreases entries.len(),
{
    if entries.len() == 0 {
        None
    } else if entries[0].0@ == name {
        Some(entries[0].1@)
    } else {
        entries_lookup(entries.drop_first(), name)
    }
}

proof fn lemma_entries_lookup_index(entries: Seq<(String, Vec<u8>)>, name: Seq<char>, j: int)
    requires
        0 <= j < entries.len(),
        entries[j].0@ == name,
        forall|k: int| 0 <= k < j ==> entries[k].0@ != name,
    ensures
        entries_lookup(entries, name) == Some(entries[j].1@),
    decreases j,
{
    if j > 0 {
        lemma_entries_lookup_index(entries.drop_first(), name, j - 1);
    }
}

proof fn lemma_entries_lookup_none(entries: Seq<(String, Vec<u8>)>, name: Seq<char>)
    requires
        forall|k: int| 0 <= k < entries.len() ==> entries[k].0@ != name,
    ensures
        entries_lookup(entries, name) is None,
    decreases entries.len(),
{
    if entries.len() > 0 {
        lemma_entries_lookup_none(entries.drop_first(), name);
    }
}

proof fn lemma_entries_lookup_found(entries: Seq<(String, Vec<u8>)>, name: Seq<char>)
    requires
        entries_lookup(entries, name) is Some,
    ensures
        exists|j: int|
            0 <= j < entries.len() && entries[j].0@ == name && (forall|k: int|
                0 <= k < j ==> entries[k].0@ != name) && entries_lookup(entries, name) == Some(
                entries[j].1@,
            ),
    decreases entries.len(),
{
    if entries[0].0@ == name {
        assert(entries[0].0@ == name);
    } else {
        lemma_entries_lookup_found(entries.drop_first(), name);
        let j = choose|j: int|
            0 <= j < entries.drop_first().len() && entries.drop_first()[j].0@ == name && (forall|
                k: int,
            | 0 <= k < j ==> entries.drop_first()[k].0@ != name) && entries_lookup(
                entries.drop_first(),
                name,
            ) == Some(entries.drop_first()[j].1@);
        assert(entries[j + 1].0@ == name);
        assert forall|k: int| 0 <= k < j + 1 implies entries[k].0@ != name by {
            if k > 0 {
                assert(entries[k] == entries.drop_first()[k - 1]);
            }
        }
    }
}

impl ParsedEnv {
    /// The bytes of the variable `name`, if it is set.
    pub closed spec fn lookup(self, name: Seq<char>) -> Option<Seq<u8>> {
        entries_lookup(self.entries@, name)
    }

    /// An empty environment.
    pub fn new() -> (r: Self)
        ensures
            forall|name: Seq<char>| #[trigger] r.lookup(name) is None,
    {
        ParsedEnv { entries: Vec::new() }
    }

    fn find(&self, name: &str) -> (r: Option<usize>)
        ensures
            match r {
                Some(j) => j < self.entries@.len() && self.entries@[j as int].0@ == name@ && (
                forall|k: int| 0 <= k < j ==> self.entries@[k].0@ != name@),
                None => forall|k: int|
                    0 <= k < self.entries@.len() ==> self.entries@[k].0@ != name@,
            },
    {
        let n = self.entries.len();
        let mut i: usize = 0;
        while i < n
            invariant
                n == self.entries@.len(),
                i <= n,
                forall|k: int| 0 <= k < i ==> self.entries@[k].0@ != name@,
            decreases n - i,
        {
            if str_eq(self.entries[i].0.as_str(), name) {
                return Some(i);
            }
            i = i + 1;
        }
        None
    }

    /// The raw bytes of the variable `name`, if it is set. This is useful to report an
    /// error with context when the value is not UTF-8.
    pub fn get(&self, name: &str) -> (r: Option<&Vec<u8>>)
        ensures
            match r {
                Some(v) => self.lookup(name@) == Some(v@),
                None => self.lookup(name@) is None,
            },
    {
        match self.find(name) {
            Some(j) => {
                proof {
                    lemma_entries_lookup_index(self.entries@, name@, j as int);
                }
                Some(&self.entries[j].1)
            },
            None => {
                proof {
                    lemma_entries_lookup_none(self.entries@, name@);
                }
                None
            },
        }
    }

    /// The variable `name` as text with invalid UTF-8 replaced, or "" if it is not set.
    /// This is what help text shows as a variable's current value.
    pub fn get_lossy_or_default(&self, name: &str) -> (r: String)
        ensures
            r@ == match self.lookup(name@) {
                Some(v) => utf8_lossy(v),
                None => Seq::<char>::empty(),
            },
    {
        match self.get(name) {
            Some(v) => lossy_string(v.as_slice()),
            None => String::new(),
        }
    }

    /// Sets the variable `name`, replacing an earlier value.
    fn set(&mut self, name: String, value: Vec<u8>)
        ensures
            final(self).lookup(name@) == Some(value@),
            forall|other: Seq<char>|
                other != name@ ==> #[trigger] final(self).lookup(other) == old(self).lookup(other),
    {
        let ghost old_entries = self.entries@;
        let ghost name_v = name@;
        let ghost value_v = value@;
        match self.find(name.as_str()) {
            Some(j) => {
                self.entries.set(j, (name, value));
                proof {
                    lemma_entries_lookup_index(self.entries@, name_v, j as int);
                    assert forall|other: Seq<char>| other != name_v implies #[trigger] entries_lookup(
                        self.entries@,
                        other,
                    ) == entries_lookup(old_entries, other) by {
                        if entries_lookup(old_entries, other) is Some {
                            lemma_entries_lookup_found(old_entries, other);
                            let k = choose|k: int|
                                0 <= k < old_entries.len() && old_entries[k].0@ == other && (
                                forall|m: int| 0 <= m < k ==> old_entries[m].0@ != other)
                                    && entries_lookup(old_entries, other) == Some(
                                    old_entries[k].1@,
                                );
                            assert(self.entries@[k].0@ == other);
                            lemma_entries_lookup_index(self.entries@, other, k);
                        } else {
                            if exists|k: int|
                                0 <= k < self.entries@.len() && self.entries@[k].0@ == other {
                                let k = choose|k: int|
                                    0 <= k < self.entries@.len() && self.entries@[k].0@ == other;
                                assert(old_entries[k].0@ == other);
                                assert(false) by {
                                    lemma_first_index(old_entries, other, k);
                                    lemma_entries_lookup_found_from_index(old_entries, other);
                                }
                            }
                            lemma_entries_lookup_none(self.entries@, other);
                        }
                    }
                }
            },
            None => {
                self.entries.push((name, value));
                proof {
                    let n = old_entries.len() as int;
                    assert(self.entries@[n].0@ == name_v);
                    lemma_entries_lookup_index(self.entries@, name_v, n);
                    assert forall|other: Seq<char>| other != name_v implies #[trigger] entries_lookup(
                        self.entries@,
                        other,
                    ) == entries_lookup(old_entries, other) by {
                        lemma_entries_lookup_prefix(old_entries, self.entries@, other);
                    }
                }
            },
        }
    }
}

proof fn lemma_first_index(entries: Seq<(String, Vec<u8>)>, name: Seq<char>, k: int)
    requires
        0 <= k < entries.len(),
        entries[k].0@ == name,
    ensures
        exists|j: int|
            0 <= j <= k && entries[j].0@ == name && (forall|m: int|
                0 <= m < j ==> entries[m].0@ != name),
    decreases k,
{
    if exists|m: int| 0 <= m < k && entries[m].0@ == name {
        let m = choose|m: int| 0 <= m < k && entries[m].0@ == name;
        lemma_first_index(entries, name, m);
    }
}

proof fn lemma_entries_lookup_found_from_index(entries: Seq<(String, Vec<u8>)>, name: Seq<char>)
    requires
        exists|j: int|
            0 <= j < entries.len() && entries[j].0@ == name && (forall|m: int|
                0 <= m < j ==> entries[m].0@ != name),
    ensures
        entries_lookup(entries, name) is Some,
{
    let j = choose|j: int|
        0 <= j < entries.len() && entries[j].0@ == name && (forall|m: int|
            0 <= m < j ==> entries[m].0@ != name);
    lemma_entries_lookup_index(entries, name, j);
}

proof fn lemma_entries_lookup_prefix(
    a: Seq<(String, Vec<u8>)>,
    b: Seq<(String, Vec<u8>)>,
    name: Seq<char>,
)
    requires
        a.len() < b.len(),
        forall|k: int| 0 <= k < a.len() ==> b[k] == a[k],
        forall|k: int| a.len() <= k < b.len() ==> b[k].0@ != name,
    ensures
        entries_lookup(b, name) == entries_lookup(a, name),
    decreases a.len(),
{
    if a.len() == 0 {
        lemma_entries_lookup_none(b, name);
    } else {
        if a[0].0@ != name {
            lemma_entries_lookup_prefix(a.drop_first(), b.drop_first(), name);
        }
    }
}

/// Collects raw (name, value) pairs, such as a snapshot of the process environment or test
/// data, into a searchable environment. Pairs whose name is not UTF-8 are dropped, since no
/// option can name them; when a name occurs twice, the later value wins.
pub fn parse_env(vars: Vec<(Vec<u8>, Vec<u8>)>) -> (r: ParsedEnv)
    ensures
        forall|name: Seq<char>| #[trigger] r.lookup(name) == pairs_lookup(pairs_view(vars@), name),
{
    let mut env = ParsedEnv::new();
    let n = vars.len();
    let mut i: usize = 0;
    while i < n
        invariant
            n == vars@.len(),
            i <= n,
            forall|name: Seq<char>| #[trigger] env.lookup(name) == pairs_lookup(
                pairs_view(vars@.take(i as int)),
                name,
            ),
        decreases n - i,
    {
        let ghost before = env;
        let key_bytes = &vars[i].0;
        let value = vstd::slice::slice_to_vec(vars[i].1.as_slice());
        assert(pairs_view(vars@.take(i + 1)).drop_last() =~= pairs_view(vars@.take(i as int)));
        assert(pairs_view(vars@.take(i + 1)).last() == (vars@[i as int].0@, vars@[i as int].1@));
        match utf8_str(key_bytes.as_slice()) {
            Some(key) => {
                env.set(key.to_owned(), value);
            },
            None => {},
        }
        i = i + 1;
    }
    assert(vars@.take(n as int) =~= vars@);
    env
}

} // verus!
