//! Initialization state machines: a structure is built from (key, value) pairs that may
//! arrive interleaved with those of other structures, then finalized.
use vstd::prelude::*;
use crate::error::InnerError;
use crate::text::string_of;

verus! {

/// A struct field identifier read from a document.
pub struct IdentString {
    inner: String,
}

impl IdentString {
    /// The identifier's characters.
    pub closed spec fn spec_str(&self) -> Seq<char> {
        self.inner@
    }

    /// An identifier holding this text.
    pub fn new(s: &str) -> (r: IdentString)
        ensures
            r.spec_str() == s@,
    {
        IdentString { inner: string_of(s) }
    }

    /// The identifier as a str.
    pub fn as_str(&self) -> (r: &str)
        ensures
            r@ == self.spec_str(),
    {
        self.inner.as_str()
    }
}

/// A machine that builds a value from (key, value) pairs, possibly interleaved with the pairs
/// of other machines, and is finalized when there are no more pairs.
pub trait InitializationStateMachine: Sized {
    /// The value the machine builds.
    type Value;

    /// Whether the machine takes pairs with this key.
    spec fn spec_wants_key(&self, key: Seq<char>) -> bool;

    /// Whether the machine takes pairs with this key.
    fn wants_key(&self, key: &str) -> (r: bool)
        ensures
            r == self.spec_wants_key(key@),
    ;

    /// Whether the machine can be advanced with a pair with this key.
    spec fn spec_accepts_key(&self, key: Seq<char>) -> bool;

    /// Whether `next` is a state that taking one pair with this key can lead to from this
    /// state (the value of the pair is not known here: it is read while advancing).
    spec fn spec_steps_to(&self, key: Seq<char>, next: Self) -> bool;

    /// Whether `r` is what finalizing this state can give.
    spec fn spec_finalizes_to(&self, r: Result<Self::Value, Vec<InnerError>>) -> bool;

    /// Advances the machine with one pair; the value is read through `next_value_producer`.
    fn next<NVP>(self, key: &str, next_value_producer: NVP) -> (r: Self)
        requires
            self.spec_accepts_key(key@),
        ensures
            self.spec_steps_to(key@, r),
    ;

    /// The value built, or every error found.
    fn finalize(self) -> (r: Result<Self::Value, Vec<InnerError>>)
        ensures
            self.spec_finalizes_to(r),
    ;
}

/// Whether `key` starts with `prefix`.
pub open spec fn has_prefix(key: Seq<char>, prefix: Seq<char>) -> bool {
    prefix.len() <= key.len() && key.take(prefix.len() as int) == prefix
}

/// `key` with `prefix` removed from its front, if it starts with it (std `str::strip_prefix`).
pub fn strip_prefix<'b>(key: &'b str, prefix: &str) -> (r: Option<&'b str>)
    ensures
        match r {
            Some(s) => has_prefix(key@, prefix@) && s@ == key@.skip(prefix@.len() as int),
            None => !has_prefix(key@, prefix@),
        },
{
    let n = key.unicode_len();
    let p = prefix.unicode_len();
    if p > n {
        return None;
    }
    let mut i: usize = 0;
    while i < p
        invariant
            n == key@.len(),
            p == prefix@.len(),
            p <= n,
            i <= p,
            forall|k: int| 0 <= k < i ==> key@[k] == prefix@[k],
        decreases p - i,
    {
        if key.get_char(i) != prefix.get_char(i) {
            assert(key@.take(p as int)[i as int] != prefix@[i as int]);
            return None;
        }
        i = i + 1;
    }
    assert(key@.take(p as int) =~= prefix@);
    let rest = key.substring_char(p, n);
    assert(rest@ =~= key@.skip(p as int));
    Some(rest)
}

/// A wrapper around an initialization state machine that strips a prefix from keys. This
/// implements flattening with a prefix, where the document keys of a flattened structure
/// share a prefix (e.g. `database_host`, `database_port`) that the inner machine does not
/// see.
pub struct PrefixStrippingStateMachine<'a, M> {
    prefix: &'a str,
    inner: M,
}

impl<'a, M> PrefixStrippingStateMachine<'a, M> {
    /// The prefix that is stripped.
    pub closed spec fn spec_prefix(&self) -> Seq<char> {
        self.prefix@
    }

    /// The inner machine.
    pub closed spec fn spec_inner(&self) -> M {
        self.inner
    }

    /// A prefix-stripping wrapper around `inner`. The prefix includes its trailing separator
    /// (e.g. `"database_"`).
    pub fn new(prefix: &'a str, inner: M) -> (r: Self)
        ensures
            r.spec_prefix() == prefix@,
            r.spec_inner() == inner,
    {
        PrefixStrippingStateMachine { prefix, inner }
    }
}

impl<'a, M: InitializationStateMachine> InitializationStateMachine for PrefixStrippingStateMachine<'a, M> {
    type Value = M::Value;

    open spec fn spec_wants_key(&self, key: Seq<char>) -> bool {
        has_prefix(key, self.spec_prefix()) && self.spec_inner().spec_wants_key(
            key.skip(self.spec_prefix().len() as int),
        )
    }

    open spec fn spec_accepts_key(&self, key: Seq<char>) -> bool {
        has_prefix(key, self.spec_prefix()) && self.spec_inner().spec_accepts_key(
            key.skip(self.spec_prefix().len() as int),
        )
    }

    /// The pair goes to the inner machine under the key with the prefix removed; the prefix
    /// stays.
    open spec fn spec_steps_to(&self, key: Seq<char>, next: Self) -> bool {
        &&& has_prefix(key, self.spec_prefix())
        &&& next.spec_prefix() == self.spec_prefix()
        &&& self.spec_inner().spec_steps_to(
            key.skip(self.spec_prefix().len() as int),
            next.spec_inner(),
        )
    }

    /// Finalizing finalizes the inner machine.
    open spec fn spec_finalizes_to(&self, r: Result<Self::Value, Vec<InnerError>>) -> bool {
        self.spec_inner().spec_finalizes_to(r)
    }

    fn wants_key(&self, key: &str) -> (r: bool) {
        match strip_prefix(key, self.prefix) {
            Some(stripped) => self.inner.wants_key(stripped),
            None => false,
        }
    }

    /// Hands the pair to the inner machine under the key with the prefix removed; the prefix
    /// stays.
    fn next<NVP>(self, key: &str, next_value_producer: NVP) -> (r: Self)
        ensures
            r.spec_prefix() == self.spec_prefix(),
    {
        match strip_prefix(key, self.prefix) {
            Some(stripped) => PrefixStrippingStateMachine {
                prefix: self.prefix,
                inner: self.inner.next(stripped, next_value_producer),
            },
            None => {
                assert(false);
                self
            },
        }
    }

    fn finalize(self) -> Result<Self::Value, Vec<InnerError>> {
        self.inner.finalize()
    }
}

} // verus!
