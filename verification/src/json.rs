//! A plain model of the JSON documents the runner sends and receives.
//!
//! Numbers are held as their decimal text: the runner never does arithmetic
//! on them, it only moves them between the portal and the brokers.

use vstd::prelude::*;

use crate::text::same_text;

verus! {

/// A JSON value. `Number` holds the decimal text of the number.
#[derive(Debug, PartialEq)]
pub enum JsonValue {
    Null,
    Bool(bool),
    Number(String),
    Str(String),
    Array(Vec<JsonValue>),
    Object(Vec<(String, JsonValue)>),
}

/// The value of the first entry of `fields` whose key is `key`.
pub open spec fn lookup(fields: Seq<(String, JsonValue)>, key: Seq<char>) -> Option<JsonValue>
    decreases fields.len(),
{
    if fields.len() == 0 {
        None
    } else if fields[0].0@ == key {
        Some(fields[0].1)
    } else {
        lookup(fields.drop_first(), key)
    }
}

/// The keys of `fields`, in order.
pub open spec fn keys_of(fields: Seq<(String, JsonValue)>) -> Seq<Seq<char>> {
    fields.map_values(|f: (String, JsonValue)| f.0@)
}

/// Looking up a key that occurs at index `i` and nowhere before it gives the
/// value at `i`.
pub proof fn lemma_lookup_at(fields: Seq<(String, JsonValue)>, i: int, key: Seq<char>)
    requires
        0 <= i < fields.len(),
        fields[i].0@ == key,
        forall|j: int| 0 <= j < i ==> #[trigger] fields[j].0@ != key,
    ensures
        lookup(fields, key) == Some(fields[i].1),
    decreases i,
{
    if i > 0 {
        lemma_lookup_at(fields.drop_first(), i - 1, key);
    }
}

/// Looking up a key that occurs nowhere gives nothing.
pub proof fn lemma_lookup_absent(fields: Seq<(String, JsonValue)>, key: Seq<char>)
    requires
        forall|j: int| 0 <= j < fields.len() ==> #[trigger] fields[j].0@ != key,
    ensures
        lookup(fields, key) is None,
    decreases fields.len(),
{
    if fields.len() > 0 {
        assert(fields[0].0@ != key);
        lemma_lookup_absent(fields.drop_first(), key);
    }
}

/// In an object whose keys are distinct, each key finds its own value, and
/// a key that is not among them finds nothing.
pub proof fn lemma_distinct_lookup(fields: Seq<(String, JsonValue)>)
    requires
        keys_of(fields).no_duplicates(),
    ensures
        forall|i: int| 0 <= i < fields.len() ==> #[trigger] lookup(fields, fields[i].0@) == Some(fields[i].1),
        forall|k: Seq<char>| !keys_of(fields).contains(k) ==> #[trigger] lookup(fields, k) is None,
{
    assert forall|i: int| 0 <= i < fields.len() implies #[trigger] lookup(fields, fields[i].0@) == Some(fields[i].1) by {
        assert forall|j: int| 0 <= j < i implies #[trigger] fields[j].0@ != fields[i].0@ by {
            assert(keys_of(fields)[j] == fields[j].0@);
            assert(keys_of(fields)[i] == fields[i].0@);
        }
        lemma_lookup_at(fields, i, fields[i].0@);
    }
    assert forall|k: Seq<char>| !keys_of(fields).contains(k) implies #[trigger] lookup(fields, k) is None by {
        assert forall|j: int| 0 <= j < fields.len() implies #[trigger] fields[j].0@ != k by {
            assert(keys_of(fields)[j] == fields[j].0@);
        }
        lemma_lookup_absent(fields, k);
    }
}

/// Appends the member `key: value` to an object under construction whose
/// keys are distinct and do not include `key`.
pub fn push_member(fields: &mut Vec<(String, JsonValue)>, key: &str, value: JsonValue)
    requires
        keys_of(old(fields)@).no_duplicates(),
        !keys_of(old(fields)@).contains(key@),
    ensures
        final(fields)@.len() == old(fields)@.len() + 1,
        final(fields)@.subrange(0, old(fields)@.len() as int) == old(fields)@,
        final(fields)@.last().0@ == key@,
        final(fields)@.last().1 == value,
        keys_of(final(fields)@) == keys_of(old(fields)@).push(key@),
        keys_of(final(fields)@).no_duplicates(),
{
    fields.push((key.to_owned(), value));
    assert(keys_of(fields@) =~= keys_of(old(fields)@).push(key@));
    assert(fields@.subrange(0, old(fields)@.len() as int) =~= old(fields)@);
}

/// A JSON string holding `s`.
pub fn text(s: &str) -> (res: JsonValue)
    ensures
        res matches JsonValue::Str(t) && t@ == s@,
{
    JsonValue::Str(s.to_owned())
}

/// A JSON string holding `s`, or `null` when there is none.
pub fn text_or_null(s: Option<String>) -> (res: JsonValue)
    ensures
        match s {
            Some(t) => res == JsonValue::Str(t),
            None => res == JsonValue::Null,
        },
{
    match s {
        Some(t) => JsonValue::Str(t),
        None => JsonValue::Null,
    }
}

impl JsonValue {
    /// The member `key` of an object; nothing for any other value.
    pub open spec fn member(self, key: Seq<char>) -> Option<JsonValue> {
        match self {
            JsonValue::Object(fields) => lookup(fields@, key),
            _ => None,
        }
    }

    /// The keys of an object in order; empty for any other value.
    pub open spec fn keys(self) -> Seq<Seq<char>> {
        match self {
            JsonValue::Object(fields) => keys_of(fields@),
            _ => Seq::empty(),
        }
    }

    /// Whether this is an object with a member `key`.
    pub open spec fn has(self, key: Seq<char>) -> bool {
        self.member(key) is Some
    }

    /// The text of the string member `key`, if there is one.
    pub open spec fn text_member(self, key: Seq<char>) -> Option<Seq<char>> {
        match self.member(key) {
            Some(JsonValue::Str(s)) => Some(s@),
            _ => None,
        }
    }

    /// The decimal text of the number member `key`, if there is one.
    pub open spec fn number_member(self, key: Seq<char>) -> Option<Seq<char>> {
        match self.member(key) {
            Some(JsonValue::Number(s)) => Some(s@),
            _ => None,
        }
    }

    /// Looks up the member `key` of an object (as `serde_json::Value::get`
    /// with a string key): `None` for a non-object or a missing key.
    pub fn get(&self, key: &str) -> (res: Option<&JsonValue>)
        ensures
            match res {
                Some(v) => self.member(key@) == Some(*v),
                None => self.member(key@) is None,
            },
    {
        match self {
            JsonValue::Object(fields) => {
                let mut i: usize = 0;
                assert(fields@.subrange(0, fields@.len() as int) =~= fields@);
                while i < fields.len()
                    invariant
                        i <= fields@.len(),
                        self.member(key@) == lookup(fields@, key@),
                        lookup(fields@, key@) == lookup(fields@.subrange(i as int, fields@.len() as int), key@),
                    decreases fields@.len() - i,
                {
                    let ghost rest = fields@.subrange(i as int, fields@.len() as int);
                    assert(rest.drop_first() =~= fields@.subrange(i + 1, fields@.len() as int));
                    assert(rest[0] == fields@[i as int]);
                    let entry = &fields[i];
                    if same_text(entry.0.as_str(), key) {
                        assert(lookup(rest, key@) == Some(rest[0].1));
                        return Some(&entry.1);
                    }
                    i = i + 1;
                }
                None
            },
            _ => None,
        }
    }

    /// The text of a string value.
    pub fn as_str(&self) -> (res: Option<&String>)
        ensures
            match *self {
                JsonValue::Str(s) => res == Some(&s),
                _ => res is None,
            },
    {
        match self {
            JsonValue::Str(s) => Some(s),
            _ => None,
        }
    }

    /// The elements of an array value.
    pub fn as_array(&self) -> (res: Option<&Vec<JsonValue>>)
        ensures
            match *self {
                JsonValue::Array(items) => res == Some(&items),
                _ => res is None,
            },
    {
        match self {
            JsonValue::Array(items) => Some(items),
            _ => None,
        }
    }

    /// The decimal text of a number value (the runner's stand-in for
    /// `serde_json::Value::as_f64`, which accepts every number).
    pub fn as_number(&self) -> (res: Option<&String>)
        ensures
            match *self {
                JsonValue::Number(s) => res == Some(&s),
                _ => res is None,
            },
    {
        match self {
            JsonValue::Number(s) => Some(s),
            _ => None,
        }
    }
}

} // verus!
