//! Reading a structure from a document: each key of the document goes to the field that
//! names it, a field given twice or an unknown key is recorded as an error, and the fields
//! the document did not give are then read from the command line and environment. The
//! values are deserialized by the caller; these functions make the decisions.
use vstd::prelude::*;
use crate::error::InnerError;
use crate::error_report::errors_view;
use crate::program_option::strs_view;
use crate::text::{str_eq, string_of};

verus! {

/// The keys of each field, as characters.
pub open spec fn keys_view(keys: Seq<Vec<String>>) -> Seq<Seq<Seq<char>>> {
    keys.map_values(|k: Vec<String>| strs_view(k@))
}

/// The first field, from `i` on, among whose keys `key` is.
pub open spec fn first_field_with_key(keys: Seq<Seq<Seq<char>>>, key: Seq<char>, i: int) -> Option<int>
    decreases keys.len() - i,
{
    if i < 0 || i >= keys.len() {
        None
    } else if keys[i].contains(key) {
        Some(i)
    } else {
        first_field_with_key(keys, key, i + 1)
    }
}

/// Where a document key goes.
#[derive(PartialEq, Eq, Structural, Debug, Clone, Copy)]
pub enum KeyRoute {
    /// To the field at this index, the first one that has the key among its keys.
    Field(usize),
    /// Nowhere: no field has the key, and unknown keys are errors.
    Unknown,
    /// Nowhere: no field has the key, and unknown keys are allowed (the value is skipped).
    Ignored,
}

/// Where a document key goes: the first field that has it among its keys, else it is unknown,
/// which is an error unless unknown keys are allowed.
pub open spec fn spec_route_key(keys: Seq<Seq<Seq<char>>>, key: Seq<char>, allow_unknown: bool) -> KeyRoute {
    match first_field_with_key(keys, key, 0) {
        Some(i) => KeyRoute::Field(i as usize),
        None => if allow_unknown {
            KeyRoute::Ignored
        } else {
            KeyRoute::Unknown
        },
    }
}

fn has_key(names: &Vec<String>, key: &str) -> (r: bool)
    ensures
        r == strs_view(names@).contains(key@),
{
    let n = names.len();
    let mut j: usize = 0;
    while j < n
        invariant
            n == names@.len(),
            j <= n,
            forall|k: int| 0 <= k < j ==> names@[k]@ != key@,
        decreases n - j,
    {
        if str_eq(names[j].as_str(), key) {
            assert(strs_view(names@)[j as int] == key@);
            return true;
        }
        j = j + 1;
    }
    assert forall|k: int| 0 <= k < strs_view(names@).len() implies strs_view(names@)[k] != key@ by {
        assert(strs_view(names@)[k] == names@[k]@);
    }
    false
}

/// Where a document key goes (see `spec_route_key`). `keys[i]` holds the names under which
/// field `i` is read (its name and aliases; none for a skipped field).
pub fn route_key(keys: &Vec<Vec<String>>, key: &str, allow_unknown: bool) -> (r: KeyRoute)
    ensures
        r == spec_route_key(keys_view(keys@), key@, allow_unknown),
{
    let ghost kv = keys_view(keys@);
    let n = keys.len();
    let mut i: usize = 0;
    while i < n
        invariant
            n == keys@.len(),
            kv == keys_view(keys@),
            i <= n,
            first_field_with_key(kv, key@, 0) == first_field_with_key(kv, key@, i as int),
        decreases n - i,
    {
        if has_key(&keys[i], key) {
            return KeyRoute::Field(i);
        }
        i = i + 1;
    }
    if allow_unknown {
        KeyRoute::Ignored
    } else {
        KeyRoute::Unknown
    }
}

/// The names of a structure's document keys, field by field, in order: the list of known
/// fields shown in an unknown-field error.
pub open spec fn all_keys(keys: Seq<Seq<Seq<char>>>) -> Seq<Seq<char>>
    decreases keys.len(),
{
    if keys.len() == 0 {
        Seq::empty()
    } else {
        all_keys(keys.drop_last()) + keys.last()
    }
}

/// The names of a structure's document keys (see `all_keys`).
pub fn document_keys(keys: &Vec<Vec<String>>) -> (r: Vec<String>)
    ensures
        strs_view(r@) == all_keys(keys_view(keys@)),
{
    let ghost kv = keys_view(keys@);
    let mut out: Vec<String> = Vec::new();
    let n = keys.len();
    let mut i: usize = 0;
    while i < n
        invariant
            n == keys@.len(),
            kv == keys_view(keys@),
            i <= n,
            strs_view(out@) == all_keys(kv.take(i as int)),
        decreases n - i,
    {
        let names = &keys[i];
        let m = names.len();
        let ghost before = strs_view(out@);
        let mut j: usize = 0;
        while j < m
            invariant
                m == names@.len(),
                j <= m,
                strs_view(out@) == before + strs_view(names@).take(j as int),
            decreases m - j,
        {
            let ghost prev = strs_view(out@);
            out.push(string_of(names[j].as_str()));
            assert(strs_view(out@) =~= prev.push(names@[j as int]@));
            assert(strs_view(names@).take(j + 1) =~= strs_view(names@).take(j as int).push(
                names@[j as int]@,
            ));
            assert(strs_view(out@) =~= before + strs_view(names@).take(j + 1));
            j = j + 1;
        }
        assert(kv.take(i + 1).drop_last() =~= kv.take(i as int));
        assert(strs_view(names@).take(m as int) =~= strs_view(names@));
        assert(kv.take(i + 1).last() == kv[i as int]);
        i = i + 1;
    }
    assert(kv.take(n as int) =~= kv);
    out
}

/// What to do with one key-value pair of the document.
#[derive(PartialEq, Eq, Structural, Debug, Clone, Copy)]
pub enum KeyAction {
    /// Deserialize the value into the field at this index.
    Deserialize(usize),
    /// The field at this index was already given: record a duplicate-field error.
    Duplicate(usize),
    /// No field has the key: record an unknown-field error.
    Unknown,
    /// No field has the key and unknown keys are allowed: skip the value.
    Ignore,
}

/// The state of reading one structure from a document: which fields the document has given,
/// and the errors recorded so far.
pub struct MachineState {
    filled: Vec<bool>,
    errors: Vec<InnerError>,
}

impl MachineState {
    /// Which fields the document has given.
    pub closed spec fn spec_filled(&self) -> Seq<bool> {
        self.filled@
    }

    /// The errors recorded so far, in order.
    pub closed spec fn spec_errors(&self) -> Seq<InnerError> {
        self.errors@
    }

    /// The state before the first key, for a structure with this many fields.
    pub fn new(fields: usize) -> (r: Self)
        ensures
            r.spec_filled() == Seq::new(fields as nat, |i: int| false),
            r.spec_errors() == Seq::<InnerError>::empty(),
    {
        let mut filled: Vec<bool> = Vec::new();
        let mut i: usize = 0;
        while i < fields
            invariant
                i <= fields,
                filled@ == Seq::new(i as nat, |k: int| false),
            decreases fields - i,
        {
            filled.push(false);
            assert(filled@ =~= Seq::new((i + 1) as nat, |k: int| false));
            i = i + 1;
        }
        MachineState { filled, errors: Vec::new() }
    }

    /// Takes one key of the document: a field that has the key and was not given yet is
    /// now given and its value is deserialized; one given before is a duplicate; a key no
    /// field has is unknown, or skipped if unknown keys are allowed.
    pub fn next_key(&mut self, keys: &Vec<Vec<String>>, key: &str, allow_unknown: bool) -> (r: KeyAction)
        requires
            old(self).spec_filled().len() == keys@.len(),
        ensures
            final(self).spec_errors() == old(self).spec_errors(),
            match spec_route_key(keys_view(keys@), key@, allow_unknown) {
                KeyRoute::Field(i) => if old(self).spec_filled()[i as int] {
                    r == KeyAction::Duplicate(i) && final(self).spec_filled() == old(self).spec_filled()
                } else {
                    r == KeyAction::Deserialize(i) && final(self).spec_filled() == old(
                        self,
                    ).spec_filled().update(i as int, true)
                },
                KeyRoute::Unknown => r == KeyAction::Unknown && final(self).spec_filled() == old(
                    self,
                ).spec_filled(),
                KeyRoute::Ignored => r == KeyAction::Ignore && final(self).spec_filled() == old(
                    self,
                ).spec_filled(),
            },
    {
        proof {
            lemma_first_field_in_range(keys_view(keys@), key@, 0);
        }
        match route_key(keys, key, allow_unknown) {
            KeyRoute::Field(i) => {
                if self.filled[i] {
                    KeyAction::Duplicate(i)
                } else {
                    self.filled.set(i, true);
                    KeyAction::Deserialize(i)
                }
            },
            KeyRoute::Unknown => KeyAction::Unknown,
            KeyRoute::Ignored => KeyAction::Ignore,
        }
    }

    /// Records an error: of a duplicate or unknown field, of a value that did not
    /// deserialize, or of a field read from the command line and environment.
    pub fn record_error(&mut self, e: InnerError)
        ensures
            final(self).spec_filled() == old(self).spec_filled(),
            final(self).spec_errors() == old(self).spec_errors().push(e),
    {
        self.errors.push(e);
    }
}

proof fn lemma_first_field_in_range(keys: Seq<Seq<Seq<char>>>, key: Seq<char>, i: int)
    requires
        0 <= i,
    ensures
        first_field_with_key(keys, key, i) matches Some(j) ==> i <= j < keys.len(),
    decreases keys.len() - i,
{
    if i < keys.len() && !keys[i].contains(key) {
        lemma_first_field_in_range(keys, key, i + 1);
    }
}

/// The indices of the fields the document did not give, in order.
pub open spec fn unfilled(filled: Seq<bool>, n: int) -> Seq<usize>
    decreases n,
{
    if n <= 0 {
        Seq::empty()
    } else if filled[n - 1] {
        unfilled(filled, n - 1)
    } else {
        unfilled(filled, n - 1).push((n - 1) as usize)
    }
}

/// What finalizing a structure read from a document does first: the fields the document did
/// not give are read from the command line and environment (in order), as if there were no
/// document.
pub struct FinalizePlan {
    pub from_context: Vec<usize>,
}

/// The finalizing plan of a state (see `FinalizePlan`).
pub fn finalize_struct(state: &MachineState) -> (r: FinalizePlan)
    ensures
        r.from_context@ == unfilled(state.spec_filled(), state.spec_filled().len() as int),
{
    let n = state.filled.len();
    let mut out: Vec<usize> = Vec::new();
    let mut i: usize = 0;
    while i < n
        invariant
            n == state.spec_filled().len(),
            i <= n,
            out@ == unfilled(state.spec_filled(), i as int),
        decreases n - i,
    {
        if !state.filled[i] {
            out.push(i);
        }
        i = i + 1;
    }
    FinalizePlan { from_context: out }
}

/// The structure read from a document: every recorded error if there is any, else the value
/// built from the fields.
pub fn finish_struct<V>(state: MachineState, value: Option<V>) -> (r: Result<V, Vec<InnerError>>)
    requires
        state.spec_errors().len() == 0 ==> value is Some,
    ensures
        state.spec_errors().len() > 0 ==> (r matches Err(es) && errors_view(es@) == errors_view(
            state.spec_errors(),
        )),
        state.spec_errors().len() == 0 ==> r == Ok::<V, Vec<InnerError>>(value.unwrap()),
{
    if state.errors.len() > 0 {
        Err(state.errors)
    } else {
        match value {
            Some(v) => Ok(v),
            None => {
                assert(false);
                Err(state.errors)
            },
        }
    }
}

} // verus!
