use vstd::prelude::*;

use crate::json::Number;
use crate::text::owned;
use crate::util::{first_index, lemma_first_index_is, lemma_first_index_none};

verus! {

/// A value of the document store's aggregation dialect.
#[derive(Debug, PartialEq)]
pub enum Bson {
    Null,
    Bool(bool),
    Int32(i32),
    Int64(i64),
    /// The double nearest to the number.
    Double(Number),
    Str(String),
    /// An object id, as 24 lower-case hexadecimal digits.
    ObjectId(String),
    /// Milliseconds since the Unix epoch, UTC.
    DateTime(i64),
    /// A pattern and its option letters.
    Regex(String, String),
    /// A decimal, as its canonical text.
    Decimal(String),
    Array(Vec<Bson>),
    Doc(Vec<(String, Bson)>),
}

/// The mathematical value of a `Bson`.
pub enum BV {
    Null,
    Bool(bool),
    Int32(i32),
    Int64(i64),
    Double(Number),
    Str(Seq<char>),
    ObjectId(Seq<char>),
    DateTime(i64),
    Regex(Seq<char>, Seq<char>),
    Decimal(Seq<char>),
    Array(Seq<BV>),
    Doc(Seq<(Seq<char>, BV)>),
}

impl View for Bson {
    type V = BV;

    open spec fn view(&self) -> BV {
        bview(*self)
    }
}

pub open spec fn bview(b: Bson) -> BV
    decreases b,
{
    match b {
        Bson::Null => BV::Null,
        Bson::Bool(x) => BV::Bool(x),
        Bson::Int32(n) => BV::Int32(n),
        Bson::Int64(n) => BV::Int64(n),
        Bson::Double(n) => BV::Double(n),
        Bson::Str(s) => BV::Str(s@),
        Bson::ObjectId(s) => BV::ObjectId(s@),
        Bson::DateTime(n) => BV::DateTime(n),
        Bson::Regex(p, o) => BV::Regex(p@, o@),
        Bson::Decimal(s) => BV::Decimal(s@),
        Bson::Array(v) => BV::Array(bview_items(v@)),
        Bson::Doc(d) => BV::Doc(bview_entries(d@)),
    }
}

pub open spec fn bview_items(s: Seq<Bson>) -> Seq<BV>
    decreases s,
{
    if s.len() == 0 {
        Seq::empty()
    } else {
        bview_items(s.drop_last()).push(bview(s.last()))
    }
}

pub open spec fn bview_entries(s: Seq<(String, Bson)>) -> Seq<(Seq<char>, BV)>
    decreases s,
{
    if s.len() == 0 {
        Seq::empty()
    } else {
        bview_entries(s.drop_last()).push((s.last().0@, bview(s.last().1)))
    }
}

pub proof fn lemma_items_push(s: Seq<Bson>, x: Bson)
    ensures
        bview_items(s.push(x)) == bview_items(s).push(bview(x)),
{
    assert(s.push(x).drop_last() =~= s);
}

pub proof fn lemma_entries_push(s: Seq<(String, Bson)>, e: (String, Bson))
    ensures
        bview_entries(s.push(e)) == bview_entries(s).push((e.0@, bview(e.1))),
{
    assert(s.push(e).drop_last() =~= s);
}

pub proof fn lemma_entries_len(s: Seq<(String, Bson)>)
    ensures
        bview_entries(s).len() == s.len(),
        forall|i: int| 0 <= i < s.len() ==> #[trigger] bview_entries(s)[i] == (s[i].0@, bview(s[i].1)),
    decreases s.len(),
{
    if s.len() > 0 {
        lemma_entries_len(s.drop_last());
    }
}

pub proof fn lemma_items_len(s: Seq<Bson>)
    ensures
        bview_items(s).len() == s.len(),
        forall|i: int| 0 <= i < s.len() ==> #[trigger] bview_items(s)[i] == bview(s[i]),
    decreases s.len(),
{
    if s.len() > 0 {
        lemma_items_len(s.drop_last());
    }
}

/// Entries of a document, in order.
pub type Entries = Vec<(String, Bson)>;

/// The keys of a document's entries, in order.
pub open spec fn keys_of(d: Seq<(Seq<char>, BV)>) -> Seq<Seq<char>> {
    d.map_values(|e: (Seq<char>, BV)| e.0)
}

/// Whether an entry is keyed `k`.
pub open spec fn keyed(k: Seq<char>) -> spec_fn((Seq<char>, BV)) -> bool {
    |e: (Seq<char>, BV)| e.0 == k
}

/// The position of the entry keyed `k`.
pub open spec fn key_pos(d: Seq<(Seq<char>, BV)>, k: Seq<char>) -> Option<int> {
    first_index(d, keyed(k))
}

pub proof fn lemma_key_pos(d: Seq<(Seq<char>, BV)>, k: Seq<char>)
    ensures
        key_pos(d, k) matches Some(i) ==> 0 <= i < d.len() && d[i].0 == k,
        key_pos(d, k) is None ==> forall|j: int| 0 <= j < d.len() ==> d[j].0 != k,
{
    crate::util::lemma_first_index_props(d, keyed(k));
}

/// The entries after `(k, v)` was inserted: an entry with key `k` has its value
/// replaced where it stands; else the entry goes at the end.
pub open spec fn vinsert(d: Seq<(Seq<char>, BV)>, k: Seq<char>, v: BV) -> Seq<(Seq<char>, BV)> {
    match key_pos(d, k) {
        Some(i) => d.update(i, (k, v)),
        None => d.push((k, v)),
    }
}

/// Inserts `(k, v)` into a document, replacing the value of an entry with the same key.
pub fn insert(d: &mut Entries, k: String, v: Bson)
    ensures
        bview_entries(final(d)@) == vinsert(bview_entries(old(d)@), k@, v@),
{
    proof {
        lemma_entries_len(d@);
    }
    let ghost dv = bview_entries(d@);
    let mut i: usize = 0;
    while i < d.len()
        invariant
            d@ == old(d)@,
            dv == bview_entries(d@),
            dv.len() == d@.len(),
            forall|j: int| 0 <= j < d@.len() ==> #[trigger] dv[j] == (d@[j].0@, bview(d@[j].1)),
            i <= d@.len(),
            forall|j: int| 0 <= j < i ==> d@[j].0@ != k@,
        decreases d.len() - i,
    {
        if d[i].0 == k {
            proof {
                lemma_first_index_is(dv, keyed(k@), i as int);
            }
            let ghost before = d@;
            let mut slot = (String::new(), Bson::Null);
            std::mem::swap(&mut slot, &mut d[i]);
            let key = slot.0;
            d.set(i, (key, v));
            proof {
                lemma_entries_len(d@);
                assert(bview_entries(d@) =~= dv.update(i as int, (k@, v@)));
            }
            return;
        }
        i = i + 1;
    }
    proof {
        lemma_first_index_none(dv, keyed(k@));
        lemma_entries_push(d@, (k, v));
    }
    d.push((k, v));
}

/// The document `{k: v}`.
pub fn single(k: &str, v: Bson) -> (r: Bson)
    ensures
        r@ == BV::Doc(seq![(k@, v@)]),
{
    let mut d: Entries = Vec::new();
    d.push((owned(k), v));
    proof {
        lemma_entries_push(Seq::empty(), d@[0]);
        assert(d@ =~= Seq::<(String, Bson)>::empty().push(d@[0]));
    }
    Bson::Doc(d)
}

/// The name of a pipeline stage: the key of a document of one entry.
pub open spec fn stage_name(b: BV) -> Option<Seq<char>> {
    match b {
        BV::Doc(d) => if d.len() == 1 {
            Some(d[0].0)
        } else {
            None
        },
        _ => None,
    }
}

/// Inserting an entry keeps every key already present and adds the new one.
pub proof fn lemma_vinsert_keys(d: Seq<(Seq<char>, BV)>, k: Seq<char>, v: BV, x: Seq<char>)
    ensures
        keys_of(vinsert(d, k, v)).contains(x) <==> (keys_of(d).contains(x) || x == k),
{
    lemma_key_pos(d, k);
    let r = vinsert(d, k, v);
    match key_pos(d, k) {
        Some(i) => {
            assert(r == d.update(i, (k, v)));
            assert(keys_of(r).len() == keys_of(d).len());
            assert forall|j: int| 0 <= j < keys_of(r).len() implies keys_of(r)[j] == keys_of(d)[j] by {
                if j == i {
                    assert(d[i].0 == k);
                }
            }
            assert(keys_of(r) =~= keys_of(d));
            assert(keys_of(d)[i] == k);
        },
        None => {
            assert(r == d.push((k, v)));
            assert(keys_of(r).len() == keys_of(d).len() + 1);
            assert forall|j: int| 0 <= j < keys_of(r).len() implies keys_of(r)[j] == keys_of(d).push(k)[j] by {
                if j < d.len() {
                    assert(r[j] == d[j]);
                }
            }
            assert(keys_of(r) =~= keys_of(d).push(k));
            if keys_of(r).contains(x) {
                let j = choose|j: int| 0 <= j < keys_of(r).len() && keys_of(r)[j] == x;
                if j < d.len() {
                    assert(keys_of(d)[j] == x);
                }
            }
            if keys_of(d).contains(x) {
                let j = choose|j: int| 0 <= j < keys_of(d).len() && keys_of(d)[j] == x;
                assert(keys_of(r)[j] == x);
            }
            if x == k {
                assert(keys_of(r)[d.len() as int] == x);
            }
        },
    }
}

} // verus!
