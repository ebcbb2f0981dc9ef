use vstd::prelude::*;

use crate::action_error::ActionError;
use crate::text::str_eq;
use crate::util::{first_index, lemma_first_index_is, lemma_first_index_none};

verus! {

/// The type of a field's values.
pub enum FieldType {
    ObjectId,
    Bool,
    I8,
    I16,
    I32,
    I64,
    I128,
    U8,
    U16,
    U32,
    U64,
    U128,
    F32,
    F64,
    Decimal,
    String,
    Date,
    DateTime,
    /// A member of the named enum.
    Enum(String),
    /// A sequence of values of the inner type.
    Vec(Box<FieldType>),
    /// A mapping from strings to values of the inner type.
    Dictionary(Box<FieldType>),
    /// A nested object of the named model.
    Object(String),
}

impl FieldType {
    pub open spec fn is_signed_int(&self) -> bool {
        self is I8 || self is I16 || self is I32 || self is I64 || self is I128
    }

    pub open spec fn is_unsigned_int(&self) -> bool {
        self is U8 || self is U16 || self is U32 || self is U64 || self is U128
    }

    pub open spec fn is_int(&self) -> bool {
        self.is_signed_int() || self.is_unsigned_int()
    }

    pub open spec fn is_float(&self) -> bool {
        self is F32 || self is F64
    }
}

#[derive(Debug, Clone, Copy, PartialEq, Eq, Structural)]
pub enum Optionality {
    Required,
    Optional,
}

/// Where a field's value lives.
#[derive(Debug, Clone, Copy, PartialEq, Eq, Structural)]
pub enum Store {
    Stored,
    Calculated,
    Temp,
}

#[derive(Debug, Clone, Copy, PartialEq, Eq, Structural)]
pub enum Sort {
    Asc,
    Desc,
}

#[derive(Debug, Clone, Copy, PartialEq, Eq, Structural)]
pub enum ModelIndexType {
    Primary,
    Unique,
    Index,
}

pub struct ModelIndexItem {
    pub field_name: String,
    pub sort: Sort,
    pub len: Option<usize>,
}

pub struct ModelIndex {
    pub index_type: ModelIndexType,
    pub name: String,
    pub items: Vec<ModelIndexItem>,
}

/// Settings of an index declared on a single field.
pub struct IndexSettings {
    pub name: Option<String>,
    pub sort: Sort,
    pub length: Option<usize>,
}

pub enum FieldIndex {
    NoIndex,
    Index(IndexSettings),
    Unique(IndexSettings),
}

pub struct Field {
    pub name: String,
    /// The name under which the backend stores the field.
    pub column_name: String,
    pub field_type: FieldType,
    pub optionality: Optionality,
    pub readable: bool,
    pub writable: bool,
    pub store: Store,
    pub queryable: bool,
    pub primary: bool,
    pub index: FieldIndex,
    pub auth_identity: bool,
    pub auth_by: bool,
}

impl Field {
    pub fn column_name(&self) -> (r: &str)
        ensures
            r@ == self.column_name@,
    {
        self.column_name.as_str()
    }
}

/// A relation to another model. `fields` name local fields, `references` the
/// matching fields of the target. With `through`, the relation runs over a join
/// model on which `fields[0]` and `references[0]` name the two hops.
pub struct Relation {
    pub name: String,
    pub model: String,
    pub fields: Vec<String>,
    pub references: Vec<String>,
    pub through: Option<String>,
}

pub struct Model {
    pub name: String,
    pub table_name: String,
    pub url_segment_name: String,
    pub localized_name: String,
    pub description: String,
    pub identity: bool,
    pub fields: Vec<Field>,
    pub relations: Vec<Relation>,
    pub primary: ModelIndex,
    pub indices: Vec<ModelIndex>,
    pub all_keys: Vec<String>,
    pub input_keys: Vec<String>,
    pub save_keys: Vec<String>,
    pub output_keys: Vec<String>,
    pub get_value_keys: Vec<String>,
    pub query_keys: Vec<String>,
    /// The key sets of the unique and primary indexes.
    pub unique_query_keys: Vec<Vec<String>>,
    pub auth_identity_keys: Vec<String>,
    pub auth_by_keys: Vec<String>,
}

/// The views of a list of strings.
pub open spec fn views(v: Seq<String>) -> Seq<Seq<char>> {
    v.map_values(|s: String| s@)
}

/// Whether `s` is among the strings of `v`.
pub fn contains_str(v: &Vec<String>, s: &str) -> (r: bool)
    ensures
        r == views(v@).contains(s@),
{
    let mut i: usize = 0;
    while i < v.len()
        invariant
            i <= v@.len(),
            forall|j: int| 0 <= j < i ==> v@[j]@ != s@,
        decreases v.len() - i,
    {
        if str_eq(v[i].as_str(), s) {
            assert(views(v@)[i as int] == s@);
            return true;
        }
        i = i + 1;
    }
    assert(!views(v@).contains(s@)) by {
        if views(v@).contains(s@) {
            let j = choose|j: int| 0 <= j < views(v@).len() && views(v@)[j] == s@;
            assert(v@[j]@ == s@);
        }
    }
    false
}

/// The first field named `k`.
pub open spec fn field_named(fields: Seq<Field>, k: Seq<char>) -> Option<Field> {
    match first_index(fields, |f: Field| f.name@ == k) {
        Some(i) => Some(fields[i]),
        None => None,
    }
}

/// The first relation named `k`.
pub open spec fn relation_named(relations: Seq<Relation>, k: Seq<char>) -> Option<Relation> {
    match first_index(relations, |r: Relation| r.name@ == k) {
        Some(i) => Some(relations[i]),
        None => None,
    }
}

/// The first model named `k`.
pub open spec fn model_named(models: Seq<Model>, k: Seq<char>) -> Option<Model> {
    match first_index(models, |m: Model| m.name@ == k) {
        Some(i) => Some(models[i]),
        None => None,
    }
}

/// Whether `a` and `b` hold the same names, as sets.
pub open spec fn same_names(a: Seq<String>, b: Seq<String>) -> bool {
    views(a).to_set() == views(b).to_set()
}

impl Model {
    pub open spec fn field_spec(&self, k: Seq<char>) -> Option<Field> {
        field_named(self.fields@, k)
    }

    pub open spec fn relation_spec(&self, k: Seq<char>) -> Option<Relation> {
        relation_named(self.relations@, k)
    }

    pub open spec fn is_queryable(&self, k: Seq<char>) -> bool {
        views(self.query_keys@).contains(k)
    }

    /// Whether `keys` is, as a set, the key set of one of the unique indexes.
    pub open spec fn is_unique_key_set(&self, keys: Seq<String>) -> bool {
        exists|i: int| 0 <= i < self.unique_query_keys@.len() && same_names(#[trigger] self.unique_query_keys@[i]@, keys)
    }

    pub fn name(&self) -> (r: &str)
        ensures
            r@ == self.name@,
    {
        self.name.as_str()
    }

    pub fn table_name(&self) -> (r: &str)
        ensures
            r@ == self.table_name@,
    {
        self.table_name.as_str()
    }

    /// The field named `k`.
    pub fn field(&self, k: &str) -> (r: Option<&Field>)
        ensures
            r matches Some(f) ==> self.field_spec(k@) == Some(*f),
            r is None ==> self.field_spec(k@) is None,
    {
        let mut i: usize = 0;
        while i < self.fields.len()
            invariant
                i <= self.fields@.len(),
                forall|j: int| 0 <= j < i ==> self.fields@[j].name@ != k@,
            decreases self.fields.len() - i,
        {
            if str_eq(self.fields[i].name.as_str(), k) {
                proof {
                    lemma_first_index_is(self.fields@, |f: Field| f.name@ == k@, i as int);
                }
                return Some(&self.fields[i]);
            }
            i = i + 1;
        }
        proof {
            lemma_first_index_none(self.fields@, |f: Field| f.name@ == k@);
        }
        None
    }

    /// The relation named `k`.
    pub fn relation(&self, k: &str) -> (r: Option<&Relation>)
        ensures
            r matches Some(x) ==> self.relation_spec(k@) == Some(*x),
            r is None ==> self.relation_spec(k@) is None,
    {
        let mut i: usize = 0;
        while i < self.relations.len()
            invariant
                i <= self.relations@.len(),
                forall|j: int| 0 <= j < i ==> self.relations@[j].name@ != k@,
            decreases self.relations.len() - i,
        {
            if str_eq(self.relations[i].name.as_str(), k) {
                proof {
                    lemma_first_index_is(self.relations@, |r: Relation| r.name@ == k@, i as int);
                }
                return Some(&self.relations[i]);
            }
            i = i + 1;
        }
        proof {
            lemma_first_index_none(self.relations@, |r: Relation| r.name@ == k@);
        }
        None
    }

    /// Whether `k` may be used in `where` and `orderBy`.
    pub fn queryable(&self, k: &str) -> (r: bool)
        ensures
            r == self.is_queryable(k@),
    {
        contains_str(&self.query_keys, k)
    }

    /// Whether `keys`, as a set, is the key set of a unique or primary index.
    pub fn unique_key_set(&self, keys: &Vec<String>) -> (r: bool)
        ensures
            r == self.is_unique_key_set(keys@),
    {
        let mut i: usize = 0;
        while i < self.unique_query_keys.len()
            invariant
                i <= self.unique_query_keys@.len(),
                forall|j: int| 0 <= j < i ==> !same_names(#[trigger] self.unique_query_keys@[j]@, keys@),
            decreases self.unique_query_keys.len() - i,
        {
            if same_set(&self.unique_query_keys[i], keys) {
                return true;
            }
            i = i + 1;
        }
        false
    }
}

/// Whether two lists of names hold the same names.
pub fn same_set(a: &Vec<String>, b: &Vec<String>) -> (r: bool)
    ensures
        r == same_names(a@, b@),
{
    let mut i: usize = 0;
    while i < a.len()
        invariant
            i <= a@.len(),
            forall|j: int| 0 <= j < i ==> views(b@).contains(#[trigger] views(a@)[j]),
        decreases a.len() - i,
    {
        if !contains_str(b, a[i].as_str()) {
            assert(views(a@)[i as int] == a@[i as int]@);
            assert(views(a@).contains(a@[i as int]@));
            assert(views(a@).to_set().contains(a@[i as int]@));
            assert(!views(b@).to_set().contains(a@[i as int]@));
            return false;
        }
        i = i + 1;
    }
    let mut i: usize = 0;
    while i < b.len()
        invariant
            i <= b@.len(),
            forall|j: int| 0 <= j < a@.len() ==> views(b@).contains(#[trigger] views(a@)[j]),
            forall|j: int| 0 <= j < i ==> views(a@).contains(#[trigger] views(b@)[j]),
        decreases b.len() - i,
    {
        if !contains_str(a, b[i].as_str()) {
            assert(views(b@)[i as int] == b@[i as int]@);
            assert(views(b@).contains(b@[i as int]@));
            assert(views(b@).to_set().contains(b@[i as int]@));
            assert(!views(a@).to_set().contains(b@[i as int]@));
            return false;
        }
        i = i + 1;
    }
    assert(views(a@).to_set() =~= views(b@).to_set()) by {
        assert forall|x: Seq<char>| views(a@).to_set().contains(x) implies views(b@).to_set().contains(x) by {
            let j = choose|j: int| 0 <= j < views(a@).len() && views(a@)[j] == x;
            assert(views(b@).contains(views(a@)[j]));
        }
        assert forall|x: Seq<char>| views(b@).to_set().contains(x) implies views(a@).to_set().contains(x) by {
            let j = choose|j: int| 0 <= j < views(b@).len() && views(b@)[j] == x;
            assert(views(a@).contains(views(b@)[j]));
        }
    }
    true
}

/// The schema: every model, and the members of every enum.
pub struct Graph {
    pub models: Vec<Model>,
    pub enums: Vec<(String, Vec<String>)>,
}

/// Whether the enum named `name` has the member `value`.
pub open spec fn enum_has(enums: Seq<(String, Vec<String>)>, name: Seq<char>, value: Seq<char>) -> bool {
    match first_index(enums, |e: (String, Vec<String>)| e.0@ == name) {
        Some(i) => views(enums[i].1@).contains(value),
        None => false,
    }
}

impl Graph {
    pub open spec fn model_spec(&self, name: Seq<char>) -> Option<Model> {
        model_named(self.models@, name)
    }

    /// The model named `name`; `ModelNotFound` when there is none.
    pub fn model(&self, name: &str) -> (r: Result<&Model, ActionError>)
        ensures
            r matches Ok(m) ==> self.model_spec(name@) == Some(*m),
            r matches Err(e) ==> self.model_spec(name@) is None
                && e.is_plain(crate::action_error::ActionErrorType::ModelNotFound, "Model named `"@ + name@ + "' is not found."@),
    {
        let mut i: usize = 0;
        while i < self.models.len()
            invariant
                i <= self.models@.len(),
                forall|j: int| 0 <= j < i ==> self.models@[j].name@ != name@,
            decreases self.models.len() - i,
        {
            if str_eq(self.models[i].name.as_str(), name) {
                proof {
                    lemma_first_index_is(self.models@, |m: Model| m.name@ == name@, i as int);
                }
                return Ok(&self.models[i]);
            }
            i = i + 1;
        }
        proof {
            lemma_first_index_none(self.models@, |m: Model| m.name@ == name@);
        }
        Err(ActionError::model_not_found(name))
    }

    /// Whether `value` is a member of the enum named `name`.
    pub fn enum_contains(&self, name: &str, value: &str) -> (r: bool)
        ensures
            r == enum_has(self.enums@, name@, value@),
    {
        let mut i: usize = 0;
        while i < self.enums.len()
            invariant
                i <= self.enums@.len(),
                forall|j: int| 0 <= j < i ==> self.enums@[j].0@ != name@,
            decreases self.enums.len() - i,
        {
            if str_eq(self.enums[i].0.as_str(), name) {
                proof {
                    lemma_first_index_is(self.enums@, |e: (String, Vec<String>)| e.0@ == name@, i as int);
                }
                return contains_str(&self.enums[i].1, value);
            }
            i = i + 1;
        }
        proof {
            lemma_first_index_none(self.enums@, |e: (String, Vec<String>)| e.0@ == name@);
        }
        false
    }
}

} // verus!
