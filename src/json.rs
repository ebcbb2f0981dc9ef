use vstd::prelude::*;

use crate::util::{first_index, lemma_first_index_is, lemma_first_index_none};

verus! {

/// A JSON number, kept in the form it was written in.
#[derive(Debug, PartialEq)]
pub enum Number {
    /// An integer that fits in `i64`.
    Int(i64),
    /// An integer above `i64::MAX` that fits in `u64`.
    UInt(u64),
    /// A number with a fraction or an exponent, as the bits of an IEEE-754 double.
    Float(u64),
}

/// A JSON value. Objects keep their entries in order, with distinct keys.
#[derive(Debug, PartialEq)]
pub enum Json {
    Null,
    Bool(bool),
    Number(Number),
    Str(String),
    Array(Vec<Json>),
    Object(Vec<(String, Json)>),
}

/// An owned copy of a number.
pub fn copy_number(n: &Number) -> (r: Number)
    ensures
        r == *n,
{
    match n {
        Number::Int(x) => Number::Int(*x),
        Number::UInt(x) => Number::UInt(*x),
        Number::Float(x) => Number::Float(*x),
    }
}

/// Index of the first entry whose key is `k`, if any.
pub open spec fn key_index<V>(entries: Seq<(String, V)>, k: Seq<char>) -> Option<int> {
    first_index(entries, |e: (String, V)| e.0@ == k)
}

/// The value stored under `k` in an entry list.
pub open spec fn lookup(entries: Seq<(String, Json)>, k: Seq<char>) -> Option<Json> {
    match key_index(entries, k) {
        Some(i) => Some(entries[i].1),
        None => None,
    }
}

/// Size of a JSON value: the number of nodes in its tree.
pub open spec fn size(j: Json) -> nat
    decreases j,
{
    match j {
        Json::Array(items) => 1 + items_size(items@),
        Json::Object(entries) => 1 + entries_size(entries@),
        _ => 1,
    }
}

pub open spec fn items_size(items: Seq<Json>) -> nat
    decreases items,
{
    if items.len() == 0 {
        0
    } else {
        items_size(items.drop_last()) + size(items.last())
    }
}

pub open spec fn entries_size(entries: Seq<(String, Json)>) -> nat
    decreases entries,
{
    if entries.len() == 0 {
        0
    } else {
        entries_size(entries.drop_last()) + size(entries.last().1)
    }
}

pub proof fn lemma_item_smaller(items: Seq<Json>, i: int)
    requires
        0 <= i < items.len(),
    ensures
        size(items[i]) <= items_size(items),
    decreases items.len(),
{
    if i < items.len() - 1 {
        lemma_item_smaller(items.drop_last(), i);
    }
}

pub proof fn lemma_entry_smaller(entries: Seq<(String, Json)>, i: int)
    requires
        0 <= i < entries.len(),
    ensures
        size(entries[i].1) <= entries_size(entries),
    decreases entries.len(),
{
    if i < entries.len() - 1 {
        lemma_entry_smaller(entries.drop_last(), i);
    }
}

impl Json {
    /// The entries of an object; empty for every other value.
    pub open spec fn entries(&self) -> Seq<(String, Json)> {
        match self {
            Json::Object(e) => e@,
            _ => Seq::empty(),
        }
    }

    /// The member `k` of an object.
    pub open spec fn member(&self, k: Seq<char>) -> Option<Json> {
        match self {
            Json::Object(e) => lookup(e@, k),
            _ => None,
        }
    }

    /// Looks a key up in an object; `None` for a missing key or a value that is no object.
    pub fn get<'a>(&'a self, k: &str) -> (r: Option<&'a Json>)
        ensures
            r matches Some(v) ==> self.member(k@) == Some(*v) && size(*v) < size(*self),
            r is None ==> self.member(k@) is None,
    {
        match self {
            Json::Object(entries) => {
                assert(*self == Json::Object(*entries));
                let mut i: usize = 0;
                while i < entries.len()
                    invariant
                        *self == Json::Object(*entries),
                        i <= entries@.len(),
                        forall|j: int| 0 <= j < i ==> entries@[j].0@ != k@,
                    decreases entries.len() - i,
                {
                    if crate::text::str_eq(entries[i].0.as_str(), k) {
                        proof {
                            lemma_first_index_is(entries@, |e: (String, Json)| e.0@ == k@, i as int);
                            lemma_entry_smaller(entries@, i as int);
                        }
                        assert(lookup(entries@, k@) == Some(entries@[i as int].1));
                        assert(self.member(k@) == Some(entries@[i as int].1));
                        assert(size(*self) == 1 + entries_size(entries@));
                        return Some(&entries[i].1);
                    }
                    i = i + 1;
                }
                proof {
                    lemma_first_index_none(entries@, |e: (String, Json)| e.0@ == k@);
                }
                None
            },
            _ => None,
        }
    }
}

/// Looking a key up in an object of one entry.
pub proof fn lemma_one_member(q: Json, k: Seq<char>)
    requires
        q is Object,
        q.entries().len() == 1,
    ensures
        q.member(k) == (if q.entries()[0].0@ == k { Some(q.entries()[0].1) } else { None::<Json> }),
{
    let s = q.entries();
    assert(s.drop_last() =~= Seq::<(String, Json)>::empty());
    assert(s.last() == s[0]);
    reveal_with_fuel(crate::util::first_index, 2);
}

} // verus!
