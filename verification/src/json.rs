//! Structured values, as requests carry them and results return them.
//!
//! A value is modelled by a tree over mathematical sequences, [`JsonModel`];
//! contracts speak of that tree. An object is a list of entries in the order
//! in which it was given.

use crate::text::str_eq;
use vstd::prelude::*;
use vstd::string::StringExecFns;

verus! {

/// A number: an integer that is not negative, a negative integer, or a number
/// with a fraction or an exponent, held as its shortest decimal text.
#[derive(Clone, Debug)]
pub enum JsonNumber {
    Unsigned(u64),
    Negative(i64),
    Real(String),
}

#[derive(Debug)]
pub enum Json {
    Null,
    Bool(bool),
    Number(JsonNumber),
    String(String),
    Array(Vec<Json>),
    Object(Vec<(String, Json)>),
}

pub enum NumberModel {
    Unsigned(u64),
    Negative(i64),
    Real(Seq<char>),
}

pub enum JsonModel {
    Null,
    Bool(bool),
    Number(NumberModel),
    String(Seq<char>),
    Array(Seq<JsonModel>),
    Object(Seq<(Seq<char>, JsonModel)>),
}

impl View for JsonNumber {
    type V = NumberModel;

    open spec fn view(&self) -> NumberModel {
        match self {
            JsonNumber::Unsigned(n) => NumberModel::Unsigned(*n),
            JsonNumber::Negative(n) => NumberModel::Negative(*n),
            JsonNumber::Real(t) => NumberModel::Real(t@),
        }
    }
}

/// The tree that a value stands for.
pub open spec fn tree(j: Json) -> JsonModel
    decreases j,
{
    match j {
        Json::Null => JsonModel::Null,
        Json::Bool(b) => JsonModel::Bool(b),
        Json::Number(n) => JsonModel::Number(n@),
        Json::String(s) => JsonModel::String(s@),
        Json::Array(items) => JsonModel::Array(trees(items@)),
        Json::Object(entries) => JsonModel::Object(entry_trees(entries@)),
    }
}

pub open spec fn trees(s: Seq<Json>) -> Seq<JsonModel>
    decreases s,
{
    if s.len() == 0 {
        Seq::empty()
    } else {
        trees(s.drop_last()).push(tree(s.last()))
    }
}

pub open spec fn entry_trees(s: Seq<(String, Json)>) -> Seq<(Seq<char>, JsonModel)>
    decreases s,
{
    if s.len() == 0 {
        Seq::empty()
    } else {
        entry_trees(s.drop_last()).push((s.last().0@, tree(s.last().1)))
    }
}

impl View for Json {
    type V = JsonModel;

    open spec fn view(&self) -> JsonModel {
        tree(*self)
    }
}

/// The trees of a sequence of values are the trees of its items, one for one.
pub proof fn lemma_trees(s: Seq<Json>)
    ensures
        trees(s).len() == s.len(),
        forall|i: int| 0 <= i < s.len() ==> (#[trigger] trees(s)[i]) == tree(s[i]),
    decreases s.len(),
{
    if s.len() > 0 {
        lemma_trees(s.drop_last());
    }
}

pub proof fn lemma_entry_trees(s: Seq<(String, Json)>)
    ensures
        entry_trees(s).len() == s.len(),
        forall|i: int|
            0 <= i < s.len() ==> (#[trigger] entry_trees(s)[i]) == (s[i].0@, tree(s[i].1)),
    decreases s.len(),
{
    if s.len() > 0 {
        lemma_entry_trees(s.drop_last());
    }
}

pub proof fn lemma_trees_push(s: Seq<Json>, j: Json)
    ensures
        trees(s.push(j)) == trees(s).push(tree(j)),
{
    assert(s.push(j).drop_last() =~= s);
}

pub proof fn lemma_entry_trees_push(s: Seq<(String, Json)>, e: (String, Json))
    ensures
        entry_trees(s.push(e)) == entry_trees(s).push((e.0@, tree(e.1))),
{
    assert(s.push(e).drop_last() =~= s);
}

/// The value of the first entry with the given key.
pub open spec fn lookup(entries: Seq<(Seq<char>, JsonModel)>, key: Seq<char>) -> Option<JsonModel>
    decreases entries.len(),
{
    if entries.len() == 0 {
        None
    } else if entries[0].0 == key {
        Some(entries[0].1)
    } else {
        lookup(entries.skip(1), key)
    }
}

/// The index of the first entry with the given key.
pub open spec fn index_of_key(entries: Seq<(Seq<char>, JsonModel)>, key: Seq<char>) -> Option<int>
    decreases entries.len(),
{
    if entries.len() == 0 {
        None
    } else if entries[0].0 == key {
        Some(0int)
    } else {
        match index_of_key(entries.skip(1), key) {
            Some(i) => Some(i + 1),
            None => None,
        }
    }
}

/// The entries with `key` bound to `value`: in the place of the first entry
/// with that key, or at the end where there is none.
pub open spec fn with_entry(
    entries: Seq<(Seq<char>, JsonModel)>,
    key: Seq<char>,
    value: JsonModel,
) -> Seq<(Seq<char>, JsonModel)> {
    match index_of_key(entries, key) {
        Some(i) => entries.update(i, (key, value)),
        None => entries.push((key, value)),
    }
}

/// After `key` is bound to `value`, the entries hold `value` under `key`,
/// and under every other key what they held before.
pub proof fn lemma_with_entry(
    entries: Seq<(Seq<char>, JsonModel)>,
    key: Seq<char>,
    value: JsonModel,
    other: Seq<char>,
)
    requires
        other != key,
    ensures
        lookup(with_entry(entries, key, value), key) == Some(value),
        lookup(with_entry(entries, key, value), other) == lookup(entries, other),
    decreases entries.len(),
{
    if entries.len() == 0 {
        let one = entries.push((key, value));
        assert(with_entry(entries, key, value) == one);
        assert(one[0] == (key, value));
        assert(one.skip(1).len() == 0);
        assert(lookup(one.skip(1), other) is None);
        assert(lookup(one, other) is None);
    } else if entries[0].0 == key {
        let after = entries.update(0, (key, value));
        assert(with_entry(entries, key, value) == after);
        assert(after[0] == (key, value));
        assert(after.skip(1) =~= entries.skip(1));
        assert(lookup(after, other) == lookup(after.skip(1), other));
        assert(lookup(entries, other) == lookup(entries.skip(1), other));
    } else {
        let rest = entries.skip(1);
        lemma_with_entry(rest, key, value, other);
        match index_of_key(rest, key) {
            Some(i) => {
                lemma_index_of_key(rest, key);
                let after = entries.update(i + 1, (key, value));
                assert(after[0] == entries[0]);
                assert(after.skip(1) =~= rest.update(i, (key, value)));
            },
            None => {
                let after = entries.push((key, value));
                assert(after[0] == entries[0]);
                assert(after.skip(1) =~= rest.push((key, value)));
            },
        }
    }
}

/// The index of a key lies within the entries.
pub proof fn lemma_index_of_key(entries: Seq<(Seq<char>, JsonModel)>, key: Seq<char>)
    ensures
        match index_of_key(entries, key) {
            Some(i) => 0 <= i < entries.len() && entries[i].0 == key,
            None => true,
        },
    decreases entries.len(),
{
    if entries.len() > 0 && entries[0].0 != key {
        lemma_index_of_key(entries.skip(1), key);
    }
}

impl JsonModel {
    /// The member of an object under `key`; nothing for any other value.
    pub open spec fn field(self, key: Seq<char>) -> Option<JsonModel> {
        match self {
            JsonModel::Object(entries) => lookup(entries, key),
            _ => None,
        }
    }

    /// The member under `key`, or null where there is none.
    pub open spec fn member(self, key: Seq<char>) -> JsonModel {
        match self.field(key) {
            Some(v) => v,
            None => JsonModel::Null,
        }
    }

    pub open spec fn as_text(self) -> Option<Seq<char>> {
        match self {
            JsonModel::String(s) => Some(s),
            _ => None,
        }
    }

    pub open spec fn as_flag(self) -> Option<bool> {
        match self {
            JsonModel::Bool(b) => Some(b),
            _ => None,
        }
    }

    pub open spec fn as_unsigned(self) -> Option<u64> {
        match self {
            JsonModel::Number(NumberModel::Unsigned(n)) => Some(n),
            _ => None,
        }
    }

    pub open spec fn as_signed(self) -> Option<i64> {
        match self {
            JsonModel::Number(NumberModel::Unsigned(n)) => if n <= i64::MAX {
                Some(n as i64)
            } else {
                None
            },
            JsonModel::Number(NumberModel::Negative(n)) => Some(n),
            _ => None,
        }
    }

    pub open spec fn as_items(self) -> Option<Seq<JsonModel>> {
        match self {
            JsonModel::Array(items) => Some(items),
            _ => None,
        }
    }

    pub open spec fn as_entries(self) -> Option<Seq<(Seq<char>, JsonModel)>> {
        match self {
            JsonModel::Object(entries) => Some(entries),
            _ => None,
        }
    }

    /// The text of a member, or the empty text where the member is no string.
    pub open spec fn text_or_empty(self) -> Seq<char> {
        match self {
            JsonModel::String(s) => s,
            _ => Seq::empty(),
        }
    }

    /// An array of strings.
    pub open spec fn of_texts(texts: Seq<Seq<char>>) -> JsonModel {
        JsonModel::Array(Seq::new(texts.len(), |i: int| JsonModel::String(texts[i])))
    }
}

impl JsonNumber {
    pub fn duplicate(&self) -> (r: JsonNumber)
        ensures
            r@ == self@,
    {
        match self {
            JsonNumber::Unsigned(n) => JsonNumber::Unsigned(*n),
            JsonNumber::Negative(n) => JsonNumber::Negative(*n),
            JsonNumber::Real(t) => JsonNumber::Real(t.clone()),
        }
    }
}

/// The position of the first entry with the given key.
pub fn find_key(entries: &Vec<(String, Json)>, key: &str) -> (r: Option<usize>)
    ensures
        match r {
            Some(i) => i < entries.len() && index_of_key(entry_trees(entries@), key@) == Some(
                i as int,
            ) && entries@[i as int].0@ == key@ && lookup(entry_trees(entries@), key@) == Some(
                tree(entries@[i as int].1),
            ),
            None => index_of_key(entry_trees(entries@), key@) is None && lookup(
                entry_trees(entries@),
                key@,
            ) is None,
        },
{
    let ghost all = entry_trees(entries@);
    proof {
        lemma_entry_trees(entries@);
        assert(all.skip(0) =~= all);
    }
    let mut i: usize = 0;
    while i < entries.len()
        invariant
            i <= entries.len(),
            all == entry_trees(entries@),
            all.len() == entries.len(),
            forall|k: int| 0 <= k < all.len() ==> (#[trigger] all[k]) == (entries@[k].0@, tree(entries@[k].1)),
            lookup(all.skip(i as int), key@) == lookup(all, key@),
            match index_of_key(all.skip(i as int), key@) {
                Some(k) => index_of_key(all, key@) == Some(k + i),
                None => index_of_key(all, key@) is None,
            },
        decreases entries.len() - i,
    {
        proof {
            assert(all.skip(i as int).skip(1) =~= all.skip(i + 1));
            assert(all.skip(i as int)[0] == all[i as int]);
        }
        if str_eq(entries[i].0.as_str(), key) {
            return Some(i);
        }
        i = i + 1;
    }
    None
}

impl Json {
    pub fn text(s: &str) -> (r: Json)
        ensures
            r@ == JsonModel::String(s@),
    {
        Json::String(String::from_str(s))
    }

    pub fn unsigned(n: u64) -> (r: Json)
        ensures
            r@ == JsonModel::Number(NumberModel::Unsigned(n)),
    {
        Json::Number(JsonNumber::Unsigned(n))
    }

    pub fn empty_object() -> (r: Json)
        ensures
            r@ == JsonModel::Object(Seq::empty()),
    {
        Json::Object(Vec::new())
    }

    /// An array of strings.
    pub fn texts(items: &Vec<String>) -> (r: Json)
        ensures
            r@ == JsonModel::of_texts(crate::text::views(items@)),
    {
        let mut out: Vec<Json> = Vec::new();
        let mut i: usize = 0;
        while i < items.len()
            invariant
                i <= items.len(),
                trees(out@) == Seq::new(i as nat, |k: int| JsonModel::String(items@[k]@)),
            decreases items.len() - i,
        {
            let item = Json::String(items[i].clone());
            proof {
                lemma_trees_push(out@, item);
                assert(trees(out@).push(tree(item)) =~= Seq::new(
                    (i + 1) as nat,
                    |k: int| JsonModel::String(items@[k]@),
                ));
            }
            out.push(item);
            i = i + 1;
        }
        proof {
            assert(trees(out@) =~= JsonModel::of_texts(crate::text::views(items@))->Array_0);
        }
        Json::Array(out)
    }

    pub fn is_null(&self) -> (r: bool)
        ensures
            r == (self@ is Null),
    {
        match self {
            Json::Null => true,
            _ => false,
        }
    }

    pub fn as_str(&self) -> (r: Option<&str>)
        ensures
            match r {
                Some(s) => self@.as_text() == Some(s@),
                None => self@.as_text() is None,
            },
    {
        match self {
            Json::String(s) => Some(s.as_str()),
            _ => None,
        }
    }

    pub fn as_bool(&self) -> (r: Option<bool>)
        ensures
            r == self@.as_flag(),
    {
        match self {
            Json::Bool(b) => Some(*b),
            _ => None,
        }
    }

    pub fn as_u64(&self) -> (r: Option<u64>)
        ensures
            r == self@.as_unsigned(),
    {
        match self {
            Json::Number(JsonNumber::Unsigned(n)) => Some(*n),
            _ => None,
        }
    }

    pub fn as_i64(&self) -> (r: Option<i64>)
        ensures
            r == self@.as_signed(),
    {
        match self {
            Json::Number(JsonNumber::Unsigned(n)) => if *n <= 0x7FFF_FFFF_FFFF_FFFFu64 {
                Some(*n as i64)
            } else {
                None
            },
            Json::Number(JsonNumber::Negative(n)) => Some(*n),
            _ => None,
        }
    }

    pub fn as_array(&self) -> (r: Option<&Vec<Json>>)
        ensures
            match r {
                Some(items) => self@.as_items() == Some(trees(items@)) && *self == Json::Array(
                    *items,
                ),
                None => self@.as_items() is None,
            },
    {
        match self {
            Json::Array(items) => Some(items),
            _ => None,
        }
    }

    pub fn as_object(&self) -> (r: Option<&Vec<(String, Json)>>)
        ensures
            match r {
                Some(entries) => self@.as_entries() == Some(entry_trees(entries@)) && *self
                    == Json::Object(*entries),
                None => self@.as_entries() is None,
            },
    {
        match self {
            Json::Object(entries) => Some(entries),
            _ => None,
        }
    }

    /// The member of an object under `key`.
    pub fn get(&self, key: &str) -> (r: Option<&Json>)
        ensures
            match r {
                Some(v) => self@.field(key@) == Some(v@),
                None => self@.field(key@) is None,
            },
    {
        match self {
            Json::Object(entries) => {
                match find_key(entries, key) {
                    Some(i) => Some(&entries[i].1),
                    None => None,
                }
            },
            _ => None,
        }
    }

    /// The text of the member under `key`, where it is a string.
    pub fn get_str(&self, key: &str) -> (r: Option<&str>)
        ensures
            match r {
                Some(s) => self@.member(key@).as_text() == Some(s@),
                None => self@.member(key@).as_text() is None,
            },
    {
        match self.get(key) {
            Some(v) => v.as_str(),
            None => None,
        }
    }

    /// A copy of the value.
    pub fn duplicate(&self) -> (r: Json)
        ensures
            r@ == self@,
        decreases self,
    {
        match self {
            Json::Null => Json::Null,
            Json::Bool(b) => Json::Bool(*b),
            Json::Number(n) => Json::Number(n.duplicate()),
            Json::String(s) => Json::String(s.clone()),
            Json::Array(items) => {
                let mut out: Vec<Json> = Vec::new();
                let mut i: usize = 0;
                while i < items.len()
                    invariant
                        i <= items.len(),
                        self is Array,
                        self->Array_0 == *items,
                        trees(out@) == trees(items@.take(i as int)),
                    decreases items.len() - i,
                {
                    proof {
                        assert(decreases_to!(*self => self->Array_0));
                        assert(decreases_to!(*items => items@));
                        assert(decreases_to!(items@ => items@[i as int]));
                    }
                    let c = items[i].duplicate();
                    proof {
                        lemma_trees_push(out@, c);
                        assert(items@.take(i + 1).drop_last() =~= items@.take(i as int));
                    }
                    out.push(c);
                    i = i + 1;
                }
                proof {
                    assert(items@.take(items@.len() as int) =~= items@);
                }
                Json::Array(out)
            },
            Json::Object(entries) => {
                let mut out: Vec<(String, Json)> = Vec::new();
                let mut i: usize = 0;
                while i < entries.len()
                    invariant
                        i <= entries.len(),
                        self is Object,
                        self->Object_0 == *entries,
                        entry_trees(out@) == entry_trees(entries@.take(i as int)),
                    decreases entries.len() - i,
                {
                    proof {
                        assert(decreases_to!(*self => self->Object_0));
                        assert(decreases_to!(*entries => entries@));
                        assert(decreases_to!(entries@ => entries@[i as int]));
                        assert(decreases_to!(entries@[i as int] => entries@[i as int].1));
                    }
                    let c = entries[i].1.duplicate();
                    let e = (entries[i].0.clone(), c);
                    proof {
                        lemma_entry_trees_push(out@, e);
                        assert(entries@.take(i + 1).drop_last() =~= entries@.take(i as int));
                    }
                    out.push(e);
                    i = i + 1;
                }
                proof {
                    assert(entries@.take(entries@.len() as int) =~= entries@);
                }
                Json::Object(out)
            },
        }
    }
}

impl Clone for Json {
    fn clone(&self) -> (r: Json)
        ensures
            r@ == self@,
    {
        self.duplicate()
    }
}

/// A copy of an optional member, null where it is missing.
pub fn copy_or_null(v: Option<&Json>) -> (r: Json)
    ensures
        r@ == match v {
            Some(j) => j@,
            None => JsonModel::Null,
        },
{
    match v {
        Some(j) => j.duplicate(),
        None => Json::Null,
    }
}

/// Binds `key` to `value`: over the first entry with that key, or at the end.
pub fn set_entry(entries: &mut Vec<(String, Json)>, key: &str, value: Json)
    ensures
        entry_trees(final(entries)@) == with_entry(entry_trees(old(entries)@), key@, value@),
{
    proof {
        lemma_entry_trees(entries@);
    }
    match find_key(entries, key) {
        Some(i) => {
            let ghost before = entries@;
            entries[i] = (String::from_str(key), value);
            proof {
                lemma_entry_trees(entries@);
                assert(entry_trees(entries@) =~= entry_trees(before).update(
                    i as int,
                    (key@, value@),
                ));
            }
        },
        None => {
            let e = (String::from_str(key), value);
            proof {
                lemma_entry_trees_push(entries@, e);
            }
            entries.push(e);
        },
    }
}

} // verus!
