//! The result of parsing command-line arguments, held as plain values: the program options
//! of the parser, the values that each option received on the command line, and the
//! subcommand that was found, if any.
use vstd::prelude::*;
use crate::program_option::{ProgramOption, ProgramOptionView};
use crate::text::str_eq;

verus! {

/// One option that appeared on the command line: its id and the values it received, in order
/// (none for a flag).
pub struct ArgMatch {
    pub id: String,
    pub values: Vec<Vec<u8>>,
}

/// The result of parsing the command line against a parser's program options.
pub struct ParsedArgs {
    /// The program options of the parser that produced these matches.
    pub options: Vec<ProgramOption>,
    /// The options that appeared on the command line.
    pub matches: Vec<ArgMatch>,
    /// The subcommand found on the command line, by name, with its own parse result.
    pub subcommand: Option<(String, Box<ParsedArgs>)>,
}

/// The index of the last option of `options` with this id. (A later option with the same id
/// replaces an earlier one.)
pub open spec fn last_option_index(options: Seq<ProgramOption>, id: Seq<char>) -> Option<int>
    decreases options.len(),
{
    if options.len() == 0 {
        None
    } else if options.last().id@ == id {
        Some(options.len() - 1)
    } else {
        last_option_index(options.drop_last(), id)
    }
}

/// The values of the first match with this id.
pub open spec fn match_values(matches: Seq<ArgMatch>, id: Seq<char>) -> Option<Seq<Seq<u8>>>
    decreases matches.len(),
{
    if matches.len() == 0 {
        None
    } else if matches[0].id@ == id {
        Some(matches[0].values@.map_values(|v: Vec<u8>| v@))
    } else {
        match_values(matches.drop_first(), id)
    }
}

proof fn lemma_last_option_index(options: Seq<ProgramOption>, id: Seq<char>, i: int)
    requires
        0 <= i < options.len(),
        options[i].id@ == id,
        forall|k: int| i < k < options.len() ==> options[k].id@ != id,
    ensures
        last_option_index(options, id) == Some(i),
    decreases options.len(),
{
    if i < options.len() - 1 {
        lemma_last_option_index(options.drop_last(), id, i);
    }
}

proof fn lemma_last_option_index_none(options: Seq<ProgramOption>, id: Seq<char>)
    requires
        forall|k: int| 0 <= k < options.len() ==> options[k].id@ != id,
    ensures
        last_option_index(options, id) is None,
    decreases options.len(),
{
    if options.len() > 0 {
        lemma_last_option_index_none(options.drop_last(), id);
    }
}

proof fn lemma_match_values(matches: Seq<ArgMatch>, id: Seq<char>, i: int)
    requires
        0 <= i < matches.len(),
        matches[i].id@ == id,
        forall|k: int| 0 <= k < i ==> matches[k].id@ != id,
    ensures
        match_values(matches, id) == Some(matches[i].values@.map_values(|v: Vec<u8>| v@)),
    decreases i,
{
    if i > 0 {
        lemma_match_values(matches.drop_first(), id, i - 1);
    }
}

proof fn lemma_match_values_none(matches: Seq<ArgMatch>, id: Seq<char>)
    requires
        forall|k: int| 0 <= k < matches.len() ==> matches[k].id@ != id,
    ensures
        match_values(matches, id) is None,
    decreases matches.len(),
{
    if matches.len() > 0 {
        lemma_match_values_none(matches.drop_first(), id);
    }
}

impl ParsedArgs {
    /// The index of the program option with this id, if there is one.
    pub open spec fn option_index(self, id: Seq<char>) -> Option<int> {
        last_option_index(self.options@, id)
    }

    /// Whether there is a program option with this id.
    pub open spec fn has_option(self, id: Seq<char>) -> bool {
        self.option_index(id) is Some
    }

    /// The program option with this id.
    pub open spec fn option(self, id: Seq<char>) -> ProgramOptionView {
        self.options@[self.option_index(id).unwrap()]@
    }

    /// The values that the option with this id received on the command line, if it appeared.
    pub open spec fn cli_values(self, id: Seq<char>) -> Option<Seq<Seq<u8>>> {
        match_values(self.matches@, id)
    }

    /// The program option with this id, if there is one.
    pub fn get_program_option(&self, id: &str) -> (r: Option<&ProgramOption>)
        ensures
            match r {
                Some(o) => self.has_option(id@) && o@ == self.option(id@) && o.id@ == id@,
                None => !self.has_option(id@),
            },
    {
        match self.find_option(id) {
            Some(i) => Some(&self.options[i]),
            None => None,
        }
    }

    /// The index of the program option with this id, if there is one.
    pub fn find_option(&self, id: &str) -> (r: Option<usize>)
        ensures
            match r {
                Some(i) => self.option_index(id@) == Some(i as int) && i < self.options@.len()
                    && self.options@[i as int].id@ == id@,
                None => self.option_index(id@) is None,
            },
    {
        let mut i: usize = self.options.len();
        while i > 0
            invariant
                i <= self.options@.len(),
                forall|k: int| i <= k < self.options@.len() ==> self.options@[k].id@ != id@,
            decreases i,
        {
            if str_eq(self.options[i - 1].id.as_str(), id) {
                proof {
                    lemma_last_option_index(self.options@, id@, i - 1);
                }
                return Some(i - 1);
            }
            i = i - 1;
        }
        proof {
            lemma_last_option_index_none(self.options@, id@);
        }
        None
    }

    /// The values that the option with this id received on the command line, if it appeared.
    pub fn get_values(&self, id: &str) -> (r: Option<&Vec<Vec<u8>>>)
        ensures
            match r {
                Some(v) => self.cli_values(id@) == Some(v@.map_values(|b: Vec<u8>| b@)),
                None => self.cli_values(id@) is None,
            },
    {
        let n = self.matches.len();
        let mut i: usize = 0;
        while i < n
            invariant
                n == self.matches@.len(),
                i <= n,
                forall|k: int| 0 <= k < i ==> self.matches@[k].id@ != id@,
            decreases n - i,
        {
            if str_eq(self.matches[i].id.as_str(), id) {
                proof {
                    lemma_match_values(self.matches@, id@, i as int);
                }
                return Some(&self.matches[i].values);
            }
            i = i + 1;
        }
        proof {
            lemma_match_values_none(self.matches@, id@);
        }
        None
    }

    /// The ids of all program options, for debugging.
    pub fn get_available_ids(&self) -> (r: Vec<&str>)
        ensures
            r@.len() == self.options@.len(),
            forall|i: int| 0 <= i < r@.len() ==> #[trigger] r@[i]@ == self.options@[i].id@,
    {
        let mut out: Vec<&str> = Vec::new();
        let n = self.options.len();
        let mut i: usize = 0;
        while i < n
            invariant
                n == self.options@.len(),
                i <= n,
                out@.len() == i,
                forall|k: int| 0 <= k < i ==> #[trigger] out@[k]@ == self.options@[k].id@,
            decreases n - i,
        {
            out.push(self.options[i].id.as_str());
            i = i + 1;
        }
        out
    }

    /// The subcommand found on the command line, if any: its name and its own parse result.
    pub fn get_subcommand(&self) -> (r: Option<(String, &ParsedArgs)>)
        ensures
            match r {
                Some((name, sub)) => self.subcommand matches Some((n, s)) && name@ == n@ && *sub
                    == *s,
                None => self.subcommand is None,
            },
    {
        match &self.subcommand {
            Some((name, sub)) => Some((name.clone(), &**sub)),
            None => None,
        }
    }
}

} // verus!
