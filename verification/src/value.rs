//! The self-describing payload values that messages carry: dictionaries,
//! lists, strings, integers and booleans, plus the [`URI`] newtype.
use vstd::prelude::*;

use crate::errors::{CallError, Reason};
use crate::CallResult;

verus! {

/// A dot-separated identifier naming a topic, a procedure or an error reason.
#[derive(Debug, PartialEq, Eq, Hash, Clone)]
pub struct URI {
    /// The textual form of the identifier.
    pub uri: String,
}

impl URI {
    /// Wraps the given text as a URI.
    pub fn new(uri: &str) -> (r: URI)
        ensures
            r.uri@ == uri@,
    {
        URI { uri: uri.to_owned() }
    }
}

/// An ordered list of payload values.
pub type List = Vec<Value>;

/// A string-keyed dictionary of payload values, kept in insertion order.
///
/// Keys are unique as long as entries are only added through [`Dict::insert`];
/// a lookup returns the first entry with the given key.
#[derive(Debug, PartialEq)]
pub struct Dict {
    /// The stored entries, in insertion order.
    pub entries: Vec<(String, Value)>,
}

/// A payload value: the union of the shapes that the wire formats carry.
///
/// A floating-point number is held as the raw bits of its IEEE-754 double
/// representation, so that it passes through the router unaltered; this crate
/// never does arithmetic on it.
#[derive(Debug, PartialEq)]
pub enum Value {
    /// A string-keyed dictionary.
    Dict(Dict),
    /// A signed 64-bit integer.
    Integer(i64),
    /// An unsigned 64-bit integer.
    UnsignedInteger(u64),
    /// The bits of an IEEE-754 double-precision number.
    Float(u64),
    /// A text value.
    String(String),
    /// An ordered list of values.
    List(List),
    /// A boolean value.
    Boolean(bool),
}

impl View for Dict {
    type V = Seq<(String, Value)>;

    open spec fn view(&self) -> Seq<(String, Value)> {
        self.entries@
    }
}

/// The value stored under `key` in an entry sequence: the first entry with
/// that key, if any.
pub open spec fn spec_dict_get(s: Seq<(String, Value)>, key: Seq<char>) -> Option<Value>
    decreases s.len(),
{
    if s.len() == 0 {
        None
    } else if s[0].0@ == key {
        Some(s[0].1)
    } else {
        spec_dict_get(s.skip(1), key)
    }
}

/// A slot that falls back to a lookup: the slot's value where it is set,
/// else the first entry under `key` among the entries still to be read.
pub open spec fn dict_get_or(slot: Option<Value>, s: Seq<(String, Value)>, key: Seq<char>) -> Option<
    Value,
> {
    match slot {
        Some(v) => Some(v),
        None => spec_dict_get(s, key),
    }
}

/// The entry sequence after storing `value` under `key`: the first entry with
/// that key is replaced, or a new entry is appended.
/// Storing under a key that no entry has appends a new entry; see
/// [`lemma_dict_insert_absent`].
pub open spec fn spec_dict_insert(s: Seq<(String, Value)>, key: String, value: Value) -> Seq<
    (String, Value),
>
    decreases s.len(),
{
    if s.len() == 0 {
        seq![(key, value)]
    } else if s[0].0@ == key@ {
        seq![(key, value)] + s.skip(1)
    } else {
        seq![s[0]] + spec_dict_insert(s.skip(1), key, value)
    }
}

/// A lookup lands on the first entry whose key matches.
pub proof fn lemma_dict_get_first_match(s: Seq<(String, Value)>, key: Seq<char>, i: int)
    requires
        0 <= i < s.len(),
        s[i].0@ == key,
        forall|j: int| 0 <= j < i ==> s[j].0@ != key,
    ensures
        spec_dict_get(s, key) == Some(s[i].1),
    decreases i,
{
    if i == 0 {
    } else {
        assert(forall|j: int| 0 <= j < i - 1 ==> s.skip(1)[j] == s[j + 1]);
        assert(s.skip(1)[i - 1] == s[i]);
        lemma_dict_get_first_match(s.skip(1), key, i - 1);
    }
}

/// A lookup misses when no entry has the key.
pub proof fn lemma_dict_get_none(s: Seq<(String, Value)>, key: Seq<char>)
    requires
        forall|j: int| 0 <= j < s.len() ==> s[j].0@ != key,
    ensures
        spec_dict_get(s, key) is None,
    decreases s.len(),
{
    if s.len() == 0 {
    } else {
        assert(forall|j: int| 0 <= j < s.skip(1).len() ==> s.skip(1)[j] == s[j + 1]);
        lemma_dict_get_none(s.skip(1), key);
    }
}

proof fn lemma_dict_get_step(s: Seq<(String, Value)>, key: Seq<char>, i: int)
    requires
        0 <= i < s.len(),
        s[i].0@ != key,
    ensures
        spec_dict_get(s.skip(i), key) == spec_dict_get(s.skip(i + 1), key),
{
    assert(s.skip(i)[0] == s[i]);
    assert(s.skip(i).skip(1) =~= s.skip(i + 1));
}

proof fn lemma_dict_get_found(s: Seq<(String, Value)>, key: Seq<char>, i: int)
    requires
        0 <= i < s.len(),
        s[i].0@ == key,
    ensures
        spec_dict_get(s.skip(i), key) == Some(s[i].1),
{
    assert(s.skip(i)[0] == s[i]);
}

proof fn lemma_dict_insert_at(s: Seq<(String, Value)>, key: String, value: Value, i: int)
    requires
        0 <= i < s.len(),
        s[i].0@ == key@,
        forall|j: int| 0 <= j < i ==> s[j].0@ != key@,
    ensures
        spec_dict_insert(s, key, value) =~= s.update(i, (key, value)),
    decreases i,
{
    if i == 0 {
        assert(spec_dict_insert(s, key, value) =~= s.update(0, (key, value)));
    } else {
        assert(s.skip(1)[i - 1] == s[i]);
        assert(forall|j: int| 0 <= j < i - 1 ==> s.skip(1)[j] == s[j + 1]);
        lemma_dict_insert_at(s.skip(1), key, value, i - 1);
        assert(seq![s[0]] + s.skip(1).update(i - 1, (key, value)) =~= s.update(i, (key, value)));
    }
}

pub proof fn lemma_dict_insert_absent(s: Seq<(String, Value)>, key: String, value: Value)
    requires
        forall|j: int| 0 <= j < s.len() ==> s[j].0@ != key@,
    ensures
        spec_dict_insert(s, key, value) =~= s.push((key, value)),
    decreases s.len(),
{
    if s.len() == 0 {
    } else {
        assert(forall|j: int| 0 <= j < s.skip(1).len() ==> s.skip(1)[j] == s[j + 1]);
        lemma_dict_insert_absent(s.skip(1), key, value);
        assert(seq![s[0]] + s.skip(1).push((key, value)) =~= s.push((key, value)));
    }
}

impl Dict {
    /// Makes an empty dictionary.
    pub fn new() -> (d: Dict)
        ensures
            d@ == Seq::<(String, Value)>::empty(),
    {
        Dict { entries: Vec::new() }
    }

    /// The number of entries.
    pub fn len(&self) -> (n: usize)
        ensures
            n == self@.len(),
    {
        self.entries.len()
    }

    /// Whether the dictionary has no entries.
    pub fn is_empty(&self) -> (r: bool)
        ensures
            r == (self@.len() == 0),
    {
        self.entries.len() == 0
    }

    /// Stores `value` under `key`, replacing the first entry with that key if
    /// one exists and appending a new entry otherwise.
    pub fn insert(&mut self, key: String, value: Value)
        ensures
            final(self)@ == spec_dict_insert(old(self)@, key, value),
    {
        let ghost s = self.entries@;
        let mut i: usize = 0;
        while i < self.entries.len()
            invariant
                0 <= i <= s.len(),
                old(self)@ == s,
                self.entries@ == s,
                forall|j: int| 0 <= j < i ==> s[j].0@ != key@,
            decreases s.len() - i,
        {
            if crate::strutil::str_eq(self.entries[i].0.as_str(), key.as_str()) {
                proof {
                    lemma_dict_insert_at(s, key, value, i as int);
                }
                self.entries.set(i, (key, value));
                return ;
            }
            i = i + 1;
        }
        proof {
            lemma_dict_insert_absent(s, key, value);
        }
        self.entries.push((key, value));
    }

    /// Looks up the first entry stored under `key`.
    pub fn get(&self, key: &str) -> (r: Option<&Value>)
        ensures
            match r {
                Some(v) => spec_dict_get(self@, key@) == Some(*v),
                None => spec_dict_get(self@, key@) is None,
            },
    {
        let ghost s = self.entries@;
        proof {
            assert(s.skip(0) =~= s);
        }
        let mut i: usize = 0;
        while i < self.entries.len()
            invariant
                0 <= i <= s.len(),
                self.entries@ == s,
                spec_dict_get(s, key@) == spec_dict_get(s.skip(i as int), key@),
            decreases s.len() - i,
        {
            if crate::strutil::str_eq(self.entries[i].0.as_str(), key) {
                proof {
                    lemma_dict_get_found(s, key@, i as int);
                }
                return Some(&self.entries[i].1);
            }
            proof {
                lemma_dict_get_step(s, key@, i as int);
            }
            i = i + 1;
        }
        assert(s.skip(s.len() as int) =~= Seq::<(String, Value)>::empty());
        None
    }

    /// The entries in storage order.
    pub fn entries(&self) -> (r: &Vec<(String, Value)>)
        ensures
            r@ == self@,
    {
        &self.entries
    }
}

/// Typed access to the positional arguments of a call or an event.
pub trait ArgList {
    /// Reads the value at `index` as a signed integer.
    fn get_int(&self, index: usize) -> CallResult<Option<i64>>;

    /// Reads the value at `index` as a string.
    fn get_string(&self, index: usize) -> CallResult<Option<&str>>;

    /// Checks that at least `expected_len` arguments are present.
    fn verify_len(&self, expected_len: usize) -> CallResult<()>;
}

/// Typed access to the keyword arguments of a call or an event.
pub trait ArgDict {
    /// Reads the value under `key` as a signed integer.
    fn get_int(&self, key: &str) -> CallResult<Option<i64>>;

    /// Reads the value under `key` as a string.
    fn get_string<'a>(&'a self, key: &str) -> CallResult<Option<&'a str>>;
}

fn invalid_argument(message: &str) -> (e: CallError)
    ensures
        e.reason == Reason::InvalidArgument,
        e.args matches Some(l) && l@.len() == 1 && l@[0] is String && (l@[0]->String_0)@
            == message@,
        e.kwargs is None,
{
    let mut args: Vec<Value> = Vec::new();
    args.push(Value::String(message.to_owned()));
    CallError::new(Reason::InvalidArgument, Some(args), None)
}

impl ArgList for List {
    /// Reads the value at `index` as a signed integer: `Ok(None)` past the
    /// end, `Ok(Some(i))` for an integer, and an invalid-argument error for a
    /// value of any other shape.
    fn get_int(&self, index: usize) -> (r: CallResult<Option<i64>>)
        ensures
            index >= self@.len() ==> r == Ok::<Option<i64>, CallError>(None),
            index < self@.len() ==> (self@[index as int] matches Value::Integer(i) ==> r == Ok::<
                Option<i64>,
                CallError,
            >(Some(i))),
            index < self@.len() && !(self@[index as int] is Integer) ==> (r matches Err(e)
                && e.reason == Reason::InvalidArgument && (e.args matches Some(l) && l@.len() == 1
                && l@[0] is String && (l@[0]->String_0)@ == "Expected integer"@) && e.kwargs
                is None),
    {
        if index >= self.len() {
            return Ok(None);
        }
        match &self[index] {
            Value::Integer(i) => Ok(Some(*i)),
            _ => Err(invalid_argument("Expected integer")),
        }
    }

    /// Reads the value at `index` as a string, in the same way.
    fn get_string(&self, index: usize) -> (r: CallResult<Option<&str>>)
        ensures
            index >= self@.len() ==> r == Ok::<Option<&str>, CallError>(None),
            index < self@.len() ==> (self@[index as int] matches Value::String(s) ==> (r matches Ok(
                Some(t),
            ) && t@ == s@)),
            index < self@.len() && !(self@[index as int] is String) ==> (r matches Err(e)
                && e.reason == Reason::InvalidArgument && (e.args matches Some(l) && l@.len() == 1
                && l@[0] is String && (l@[0]->String_0)@ == "Expected string"@) && e.kwargs
                is None),
    {
        if index >= self.len() {
            return Ok(None);
        }
        match &self[index] {
            Value::String(s) => Ok(Some(s.as_str())),
            _ => Err(invalid_argument("Expected string")),
        }
    }

    /// Checks that at least `expected_len` arguments are present, failing
    /// with an invalid-argument error otherwise.
    fn verify_len(&self, expected_len: usize) -> (r: CallResult<()>)
        ensures
            self@.len() >= expected_len ==> r == Ok::<(), CallError>(()),
            self@.len() < expected_len ==> (r matches Err(e) && e.reason
                == Reason::InvalidArgument && (e.args matches Some(l) && l@.len() == 1 && l@[0]
                is String && (l@[0]->String_0)@ == "Too few arguments"@) && e.kwargs is None),
    {
        if self.len() >= expected_len {
            Ok(())
        } else {
            Err(invalid_argument("Too few arguments"))
        }
    }
}

impl ArgDict for Dict {
    /// Reads the value under `key` as a signed integer: `Ok(None)` for a
    /// missing key, `Ok(Some(i))` for an integer, and an invalid-argument
    /// error for a value of any other shape.
    fn get_int(&self, key: &str) -> (r: CallResult<Option<i64>>)
        ensures
            spec_dict_get(self@, key@) is None ==> r == Ok::<Option<i64>, CallError>(None),
            spec_dict_get(self@, key@) matches Some(v) ==> (v matches Value::Integer(i) ==> r
                == Ok::<Option<i64>, CallError>(Some(i))),
            spec_dict_get(self@, key@) matches Some(v) ==> (!(v is Integer) ==> (r matches Err(e)
                && e.reason == Reason::InvalidArgument && (e.args matches Some(l) && l@.len() == 1
                && l@[0] is String && (l@[0]->String_0)@ == "Expected integer"@) && e.kwargs
                is None)),
    {
        match self.get(key) {
            None => Ok(None),
            Some(v) => match v {
                Value::Integer(i) => Ok(Some(*i)),
                _ => Err(invalid_argument("Expected integer")),
            },
        }
    }

    /// Reads the value under `key` as a string, in the same way.
    fn get_string<'a>(&'a self, key: &str) -> (r: CallResult<Option<&'a str>>)
        ensures
            spec_dict_get(self@, key@) is None ==> r == Ok::<Option<&'a str>, CallError>(None),
            spec_dict_get(self@, key@) matches Some(v) ==> (v matches Value::String(s) ==> (r
                matches Ok(Some(t)) && t@ == s@)),
            spec_dict_get(self@, key@) matches Some(v) ==> (!(v is String) ==> (r matches Err(e)
                && e.reason == Reason::InvalidArgument && (e.args matches Some(l) && l@.len() == 1
                && l@[0] is String && (l@[0]->String_0)@ == "Expected string"@) && e.kwargs
                is None)),
    {
        match self.get(key) {
            None => Ok(None),
            Some(v) => match v {
                Value::String(s) => Ok(Some(s.as_str())),
                _ => Err(invalid_argument("Expected string")),
            },
        }
    }
}

} // verus!
verus! {

/// Whether two values are structurally alike: the same shape with the same
/// texts, numbers and flags everywhere.  Alike values write the same wire
/// text; the copies [`duplicate_value`] makes are alike to their sources.
pub open spec fn value_like(a: Value, b: Value) -> bool
    decreases a,
{
    match (a, b) {
        (Value::Dict(d1), Value::Dict(d2)) => entries_like(d1@, d2@),
        (Value::List(l1), Value::List(l2)) => values_like(l1@, l2@),
        (Value::String(s1), Value::String(s2)) => s1@ == s2@,
        (Value::Integer(x), Value::Integer(y)) => x == y,
        (Value::UnsignedInteger(x), Value::UnsignedInteger(y)) => x == y,
        (Value::Float(x), Value::Float(y)) => x == y,
        (Value::Boolean(x), Value::Boolean(y)) => x == y,
        _ => false,
    }
}

/// Whether two value sequences are alike element by element.
pub open spec fn values_like(a: Seq<Value>, b: Seq<Value>) -> bool
    decreases a,
{
    &&& a.len() == b.len()
    &&& (a.len() > 0 ==> value_like(a[0], b[0]) && values_like(
        a.subrange(1, a.len() as int),
        b.subrange(1, b.len() as int),
    ))
}

/// Whether two entry sequences are alike: equal keys, alike values.
pub open spec fn entries_like(a: Seq<(String, Value)>, b: Seq<(String, Value)>) -> bool
    decreases a,
{
    &&& a.len() == b.len()
    &&& (a.len() > 0 ==> a[0].0@ == b[0].0@ && value_like(a[0].1, b[0].1) && entries_like(
        a.subrange(1, a.len() as int),
        b.subrange(1, b.len() as int),
    ))
}

/// Element-by-element likeness amounts to the pointwise statement.
pub proof fn lemma_values_like_pointwise(a: Seq<Value>, b: Seq<Value>)
    requires
        a.len() == b.len(),
        forall|j: int| 0 <= j < a.len() ==> value_like(#[trigger] a[j], b[j]),
    ensures
        values_like(a, b),
    decreases a.len(),
{
    if a.len() > 0 {
        assert(forall|j: int|
            0 <= j < a.subrange(1, a.len() as int).len() ==> a.subrange(1, a.len() as int)[j]
                == a[j + 1] && b.subrange(1, b.len() as int)[j] == b[j + 1]);
        lemma_values_like_pointwise(a.subrange(1, a.len() as int), b.subrange(1, b.len() as int));
    }
}

/// Entry-by-entry likeness amounts to the pointwise statement.
pub proof fn lemma_entries_like_pointwise(a: Seq<(String, Value)>, b: Seq<(String, Value)>)
    requires
        a.len() == b.len(),
        forall|j: int|
            0 <= j < a.len() ==> (#[trigger] a[j]).0@ == b[j].0@ && value_like(a[j].1, b[j].1),
    ensures
        entries_like(a, b),
    decreases a.len(),
{
    if a.len() > 0 {
        assert(forall|j: int|
            0 <= j < a.subrange(1, a.len() as int).len() ==> a.subrange(1, a.len() as int)[j]
                == a[j + 1] && b.subrange(1, b.len() as int)[j] == b[j + 1]);
        lemma_entries_like_pointwise(
            a.subrange(1, a.len() as int),
            b.subrange(1, b.len() as int),
        );
    }
}

/// Copies a value; the copy is structurally alike to the source.
#[verifier::loop_isolation(false)]
pub fn duplicate_value(v: &Value) -> (r: Value)
    ensures
        value_like(r, *v),
    decreases *v,
{
    match v {
        Value::Dict(d) => {
            let mut entries: Vec<(String, Value)> = Vec::new();
            let mut i: usize = 0;
            while i < d.entries.len()
                invariant
                    0 <= i <= d.entries@.len(),
                    entries@.len() == i,
                    forall|j: int|
                        0 <= j < i ==> (#[trigger] entries@[j]).0@ == d.entries@[j].0@
                            && value_like(entries@[j].1, d.entries@[j].1),
                decreases d.entries@.len() - i,
            {
                let key = d.entries[i].0.clone();
                let value = duplicate_value(&d.entries[i].1);
                entries.push((key, value));
                i = i + 1;
            }
            proof {
                lemma_entries_like_pointwise(entries@, d.entries@);
            }
            Value::Dict(Dict { entries })
        },
        Value::List(l) => {
            let mut items: Vec<Value> = Vec::new();
            let mut i: usize = 0;
            while i < l.len()
                invariant
                    0 <= i <= l@.len(),
                    items@.len() == i,
                    forall|j: int| 0 <= j < i ==> value_like(#[trigger] items@[j], l@[j]),
                decreases l@.len() - i,
            {
                items.push(duplicate_value(&l[i]));
                i = i + 1;
            }
            proof {
                lemma_values_like_pointwise(items@, l@);
            }
            Value::List(items)
        },
        Value::String(s) => Value::String(s.clone()),
        Value::Integer(x) => Value::Integer(*x),
        Value::UnsignedInteger(x) => Value::UnsignedInteger(*x),
        Value::Float(x) => Value::Float(*x),
        Value::Boolean(x) => Value::Boolean(*x),
    }
}

/// Copies a value list; the copy is alike element by element.
pub fn duplicate_list(l: &List) -> (r: List)
    ensures
        values_like(r@, l@),
{
    let mut items: Vec<Value> = Vec::new();
    let mut i: usize = 0;
    while i < l.len()
        invariant
            0 <= i <= l@.len(),
            items@.len() == i,
            forall|j: int| 0 <= j < i ==> value_like(#[trigger] items@[j], l@[j]),
        decreases l@.len() - i,
    {
        items.push(duplicate_value(&l[i]));
        i = i + 1;
    }
    proof {
        lemma_values_like_pointwise(items@, l@);
    }
    items
}

/// Copies a dictionary; the copy is alike entry by entry.
pub fn duplicate_dict(d: &Dict) -> (r: Dict)
    ensures
        entries_like(r@, d@),
{
    let mut entries: Vec<(String, Value)> = Vec::new();
    let mut i: usize = 0;
    while i < d.entries.len()
        invariant
            0 <= i <= d.entries@.len(),
            entries@.len() == i,
            forall|j: int|
                0 <= j < i ==> (#[trigger] entries@[j]).0@ == d.entries@[j].0@ && value_like(
                    entries@[j].1,
                    d.entries@[j].1,
                ),
        decreases d.entries@.len() - i,
    {
        let key = d.entries[i].0.clone();
        let value = duplicate_value(&d.entries[i].1);
        entries.push((key, value));
        i = i + 1;
    }
    proof {
        lemma_entries_like_pointwise(entries@, d.entries@);
    }
    Dict { entries }
}

} // verus!
