//! Declares a model step by step and derives its key sets.

use vstd::prelude::*;

use crate::outside::{kebab_of, lower_of, plural_of, to_kebab_case, to_lowercase, to_plural};
use crate::schema::{
    Field, FieldIndex, IndexSettings, Model, ModelIndex, ModelIndexItem, ModelIndexType, Relation, Sort, Store,
    views,
};
use crate::text::owned;

verus! {

pub struct ModelBuilder {
    pub name: String,
    pub table_name: String,
    pub url_segment_name: String,
    pub localized_name: String,
    pub description: String,
    pub identity: bool,
    /// An internal model offers no actions to clients.
    pub internal: bool,
    pub fields: Vec<Field>,
    pub relations: Vec<Relation>,
    pub primary: Option<ModelIndex>,
    pub indices: Vec<ModelIndex>,
}

/// The names of the fields that satisfy `p`, in order.
pub open spec fn names_with(fields: Seq<Field>, p: spec_fn(Field) -> bool) -> Seq<Seq<char>>
    decreases fields.len(),
{
    if fields.len() == 0 {
        Seq::empty()
    } else {
        let s = names_with(fields.drop_last(), p);
        if p(fields.last()) {
            s.push(fields.last().name@)
        } else {
            s
        }
    }
}

/// The names of the relations, in order.
pub open spec fn relation_names(relations: Seq<Relation>) -> Seq<Seq<char>> {
    relations.map_values(|r: Relation| r.name@)
}

/// The field names of an index, in order.
pub open spec fn index_names(index: ModelIndex) -> Seq<Seq<char>> {
    index.items@.map_values(|i: ModelIndexItem| i.field_name@)
}

impl ModelBuilder {
    pub fn new(name: &str) -> (r: Self)
        ensures
            r.name@ == name@,
            r.table_name@.len() == 0,
            r.url_segment_name@.len() == 0,
            r.localized_name@.len() == 0,
            r.description@.len() == 0,
            !r.identity,
            !r.internal,
            r.fields@.len() == 0,
            r.relations@.len() == 0,
            r.primary is None,
            r.indices@.len() == 0,
    {
        ModelBuilder {
            name: owned(name),
            table_name: String::new(),
            url_segment_name: String::new(),
            localized_name: String::new(),
            description: String::new(),
            identity: false,
            internal: false,
            fields: Vec::new(),
            relations: Vec::new(),
            primary: None,
            indices: Vec::new(),
        }
    }

    pub fn table_name(&mut self, table_name: &str) -> (r: &mut Self)
        ensures
            r.table_name@ == table_name@,
            *r == (ModelBuilder { table_name: r.table_name, ..*old(self) }),
            *final(self) == *final(r),
    {
        self.table_name = owned(table_name);
        self
    }
    /// The path segment of the model's routes; derived from the name when left empty.
    pub fn url_segment_name(&mut self, url_segment_name: &str) -> (r: &mut Self)
        ensures
            r.url_segment_name@ == url_segment_name@,
            *r == (ModelBuilder { url_segment_name: r.url_segment_name, ..*old(self) }),
            *final(self) == *final(r),
    {
        self.url_segment_name = owned(url_segment_name);
        self
    }

    /// The display name of the model.
    pub fn localized_name(&mut self, localized_name: &str) -> (r: &mut Self)
        ensures
            r.localized_name@ == localized_name@,
            *r == (ModelBuilder { localized_name: r.localized_name, ..*old(self) }),
            *final(self) == *final(r),
    {
        self.localized_name = owned(localized_name);
        self
    }

    /// A description of the model.
    pub fn description(&mut self, description: &str) -> (r: &mut Self)
        ensures
            r.description@ == description@,
            *r == (ModelBuilder { description: r.description, ..*old(self) }),
            *final(self) == *final(r),
    {
        self.description = owned(description);
        self
    }

    /// Marks the model as one that clients sign in as.
    pub fn identity(&mut self) -> (r: &mut Self)
        ensures
            *r == (ModelBuilder { identity: true, ..*old(self) }),
            *final(self) == *final(r),
    {
        self.identity = true;
        self
    }

    /// Adds a field.
    pub fn field(&mut self, field: Field) -> (r: &mut Self)
        ensures
            r.fields@ == old(self).fields@.push(field),
            *r == (ModelBuilder { fields: r.fields, ..*old(self) }),
            *final(self) == *final(r),
    {
        self.fields.push(field);
        self
    }

    /// Adds a relation.
    pub fn relation(&mut self, relation: Relation) -> (r: &mut Self)
        ensures
            r.relations@ == old(self).relations@.push(relation),
            *r == (ModelBuilder { relations: r.relations, ..*old(self) }),
            *final(self) == *final(r),
    {
        self.relations.push(relation);
        self
    }

    /// Marks the model as internal: it offers no actions to clients.
    pub fn internal(&mut self) -> (r: &mut Self)
        ensures
            *r == (ModelBuilder { internal: true, ..*old(self) }),
            *final(self) == *final(r),
    {
        self.internal = true;
        self
    }

    /// Declares the primary index over `keys`; it is also listed among the indexes.
    pub fn primary(&mut self, keys: &Vec<String>) -> (r: &mut Self)
        ensures
            r.primary matches Some(p) && p.index_type == ModelIndexType::Primary && index_names(p) == views(keys@)
                && p.name@ == joined(views(keys@)) && ascending_items(p),
            r.indices@.len() == old(self).indices@.len() + 1,
            r.indices@.take(old(self).indices@.len() as int) == old(self).indices@,
            r.indices@.last().index_type == ModelIndexType::Primary,
            index_names(r.indices@.last()) == views(keys@),
            r.indices@.last().name@ == joined(views(keys@)),
            ascending_items(r.indices@.last()),
            *r == (ModelBuilder { primary: r.primary, indices: r.indices, ..*old(self) }),
            *final(self) == *final(r),
    {
        let listed = index_over(ModelIndexType::Primary, keys);
        let ghost before = self.indices@;
        self.indices.push(listed);
        assert(self.indices@.take(before.len() as int) =~= before);
        let primary = index_over(ModelIndexType::Primary, keys);
        self.primary = Some(primary);
        self
    }

    /// Declares the primary index as given.
    pub fn primary_settings(&mut self, index: ModelIndex) -> (r: &mut Self)
        ensures
            *r == (ModelBuilder { primary: Some(ModelIndex { index_type: ModelIndexType::Primary, ..index }), ..*old(self) }),
            *final(self) == *final(r),
    {
        let mut index = index;
        index.index_type = ModelIndexType::Primary;
        self.primary = Some(index);
        self
    }

    /// Adds a plain index over `keys`.
    pub fn index(&mut self, keys: &Vec<String>) -> (r: &mut Self)
        ensures
            r.indices@.len() == old(self).indices@.len() + 1,
            r.indices@.take(old(self).indices@.len() as int) == old(self).indices@,
            r.indices@.last().index_type == ModelIndexType::Index,
            index_names(r.indices@.last()) == views(keys@),
            r.indices@.last().name@ == joined(views(keys@)),
            ascending_items(r.indices@.last()),
            *r == (ModelBuilder { indices: r.indices, ..*old(self) }),
            *final(self) == *final(r),
    {
        let ghost before = self.indices@;
        self.indices.push(index_over(ModelIndexType::Index, keys));
        assert(self.indices@.take(before.len() as int) =~= before);
        self
    }

    /// Adds a plain index as given.
    pub fn index_settings(&mut self, index: ModelIndex) -> (r: &mut Self)
        ensures
            r.indices@ == old(self).indices@.push(ModelIndex { index_type: ModelIndexType::Index, ..index }),
            *r == (ModelBuilder { indices: r.indices, ..*old(self) }),
            *final(self) == *final(r),
    {
        let mut index = index;
        index.index_type = ModelIndexType::Index;
        self.indices.push(index);
        self
    }

    /// Adds a unique index over `keys`.
    pub fn unique(&mut self, keys: &Vec<String>) -> (r: &mut Self)
        ensures
            r.indices@.len() == old(self).indices@.len() + 1,
            r.indices@.take(old(self).indices@.len() as int) == old(self).indices@,
            r.indices@.last().index_type == ModelIndexType::Unique,
            index_names(r.indices@.last()) == views(keys@),
            r.indices@.last().name@ == joined(views(keys@)),
            ascending_items(r.indices@.last()),
            *r == (ModelBuilder { indices: r.indices, ..*old(self) }),
            *final(self) == *final(r),
    {
        let ghost before = self.indices@;
        self.indices.push(index_over(ModelIndexType::Unique, keys));
        assert(self.indices@.take(before.len() as int) =~= before);
        self
    }

    /// Adds a unique index as given.
    pub fn unique_settings(&mut self, index: ModelIndex) -> (r: &mut Self)
        ensures
            r.indices@ == old(self).indices@.push(ModelIndex { index_type: ModelIndexType::Unique, ..index }),
            *r == (ModelBuilder { indices: r.indices, ..*old(self) }),
            *final(self) == *final(r),
    {
        let mut index = index;
        index.index_type = ModelIndexType::Unique;
        self.indices.push(index);
        self
    }
}


/// Whether every item of an index sorts ascending with no length.
pub open spec fn ascending_items(ix: ModelIndex) -> bool {
    forall|i: int| 0 <= i < ix.items@.len() ==> (#[trigger] ix.items@[i]).sort == Sort::Asc && ix.items@[i].len is None
}

/// `keys` joined with `_` between them.
pub open spec fn joined(keys: Seq<Seq<char>>) -> Seq<char>
    decreases keys.len(),
{
    if keys.len() == 0 {
        Seq::empty()
    } else if keys.len() == 1 {
        keys[0]
    } else {
        joined(keys.drop_last()) + seq!['_'] + keys.last()
    }
}

/// An ascending index of the given type over `keys`, named after them.
fn index_over(index_type: ModelIndexType, keys: &Vec<String>) -> (r: ModelIndex)
    ensures
        r.index_type == index_type,
        index_names(r) == views(keys@),
        r.name@ == joined(views(keys@)),
        forall|i: int| 0 <= i < r.items@.len() ==> (#[trigger] r.items@[i]).sort == Sort::Asc && r.items@[i].len is None,
{
    let mut items: Vec<ModelIndexItem> = Vec::new();
    let mut name = String::new();
    let mut i: usize = 0;
    while i < keys.len()
        invariant
            i <= keys@.len(),
            items@.len() == i,
            forall|j: int| 0 <= j < i ==> (#[trigger] items@[j]).field_name@ == keys@[j]@ && items@[j].sort == Sort::Asc && items@[j].len is None,
            name@ == joined(views(keys@.take(i as int))),
        decreases keys.len() - i,
    {
        proof {
            assert(views(keys@.take(i as int + 1)).drop_last() =~= views(keys@.take(i as int)));
            reveal_strlit("_");
        }
        if i > 0 {
            name.append("_");
        }
        name.append(keys[i].as_str());
        items.push(ModelIndexItem { field_name: keys[i].clone(), sort: Sort::Asc, len: None });
        i = i + 1;
        proof {
            let t = views(keys@.take(i as int));
            assert(t.last() == keys@[i - 1]@);
            if i == 1 {
                assert(t =~= seq![keys@[0]@]);
            }
        }
    }
    assert(keys@.take(i as int) =~= keys@);
    let r = ModelIndex { index_type, name, items };
    assert(index_names(r) =~= views(keys@));
    r
}

/// Which fields a key set holds.
#[derive(Debug, Clone, Copy, PartialEq, Eq, Structural)]
pub enum KeyKind {
    All,
    Writable,
    Stored,
    Readable,
    Queryable,
    AuthIdentity,
    AuthBy,
}

pub open spec fn selects(kind: KeyKind, f: Field) -> bool {
    match kind {
        KeyKind::All => true,
        KeyKind::Writable => f.writable,
        KeyKind::Stored => f.store == Store::Stored,
        KeyKind::Readable => f.readable,
        KeyKind::Queryable => f.queryable,
        KeyKind::AuthIdentity => f.auth_identity,
        KeyKind::AuthBy => f.auth_by,
    }
}

/// The names of the fields of a kind, in order; with the relation names after
/// them when `with_relations`.
fn key_list(fields: &Vec<Field>, relations: &Vec<Relation>, kind: KeyKind, with_relations: bool) -> (r: Vec<String>)
    ensures
        views(r@) == names_with(fields@, |f: Field| selects(kind, f)) + if with_relations {
            relation_names(relations@)
        } else {
            Seq::empty()
        },
{
    let mut out: Vec<String> = Vec::new();
    let mut i: usize = 0;
    while i < fields.len()
        invariant
            i <= fields@.len(),
            views(out@) == names_with(fields@.take(i as int), |f: Field| selects(kind, f)),
        decreases fields.len() - i,
    {
        proof {
            assert(fields@.take(i as int + 1).drop_last() =~= fields@.take(i as int));
            assert(fields@.take(i as int + 1).last() == fields@[i as int]);
        }
        let f = &fields[i];
        let hit = match kind {
            KeyKind::All => true,
            KeyKind::Writable => f.writable,
            KeyKind::Stored => f.store == Store::Stored,
            KeyKind::Readable => f.readable,
            KeyKind::Queryable => f.queryable,
            KeyKind::AuthIdentity => f.auth_identity,
            KeyKind::AuthBy => f.auth_by,
        };
        if hit {
            let ghost before = out@;
            out.push(f.name.clone());
            assert(views(out@) =~= views(before).push(f.name@));
        }
        i = i + 1;
    }
    assert(fields@.take(i as int) =~= fields@);
    let ghost base = views(out@);
    if with_relations {
        let mut j: usize = 0;
        while j < relations.len()
            invariant
                j <= relations@.len(),
                views(out@) == base + relation_names(relations@.take(j as int)),
            decreases relations.len() - j,
        {
            let ghost before = out@;
            out.push(relations[j].name.clone());
            assert(views(out@) =~= views(before).push(relations@[j as int].name@));
            assert(relation_names(relations@.take(j as int + 1)) =~= relation_names(relations@.take(j as int)).push(relations@[j as int].name@));
            j = j + 1;
            assert(views(out@) =~= base + relation_names(relations@.take(j as int)));
        }
        assert(relations@.take(j as int) =~= relations@);
    } else {
        assert(views(out@) =~= base + Seq::<Seq<char>>::empty());
    }
    out
}

/// The name of the last field marked primary.
pub open spec fn primary_field(fields: Seq<Field>) -> Option<Seq<char>>
    decreases fields.len(),
{
    if fields.len() == 0 {
        None
    } else if fields.last().primary {
        Some(fields.last().name@)
    } else {
        primary_field(fields.drop_last())
    }
}

/// The type and field names of an index.
pub open spec fn summary(ix: ModelIndex) -> (ModelIndexType, Seq<Seq<char>>) {
    (ix.index_type, index_names(ix))
}

/// The single-field indexes that fields declare, in order.
pub open spec fn field_indexes(fields: Seq<Field>) -> Seq<(ModelIndexType, Seq<Seq<char>>)>
    decreases fields.len(),
{
    if fields.len() == 0 {
        Seq::empty()
    } else {
        let s = field_indexes(fields.drop_last());
        let f = fields.last();
        match f.index {
            FieldIndex::Index(_) => s.push((ModelIndexType::Index, seq![f.name@])),
            FieldIndex::Unique(_) => s.push((ModelIndexType::Unique, seq![f.name@])),
            FieldIndex::NoIndex => s,
        }
    }
}

/// The key sets of the unique and primary indexes, in order.
pub open spec fn unique_sets(indices: Seq<ModelIndex>) -> Seq<Seq<Seq<char>>>
    decreases indices.len(),
{
    if indices.len() == 0 {
        Seq::empty()
    } else {
        let s = unique_sets(indices.drop_last());
        let ix = indices.last();
        if ix.index_type == ModelIndexType::Unique || ix.index_type == ModelIndexType::Primary {
            s.push(index_names(ix))
        } else {
            s
        }
    }
}

pub open spec fn set_views(v: Seq<Vec<String>>) -> Seq<Seq<Seq<char>>> {
    v.map_values(|x: Vec<String>| views(x@))
}

fn names_of(ix: &ModelIndex) -> (r: Vec<String>)
    ensures
        views(r@) == index_names(*ix),
{
    let mut out: Vec<String> = Vec::new();
    let mut i: usize = 0;
    while i < ix.items.len()
        invariant
            i <= ix.items@.len(),
            views(out@) == ix.items@.take(i as int).map_values(|it: ModelIndexItem| it.field_name@),
        decreases ix.items.len() - i,
    {
        let ghost before = out@;
        out.push(ix.items[i].field_name.clone());
        assert(views(out@) =~= views(before).push(ix.items@[i as int].field_name@));
        assert(ix.items@.take(i as int + 1).map_values(|it: ModelIndexItem| it.field_name@)
            =~= ix.items@.take(i as int).map_values(|it: ModelIndexItem| it.field_name@).push(ix.items@[i as int].field_name@));
        i = i + 1;
    }
    assert(ix.items@.take(i as int) =~= ix.items@);
    out
}

fn single_index(index_type: ModelIndexType, name: &String, settings: &IndexSettings) -> (r: ModelIndex)
    ensures
        summary(r) == (index_type, seq![name@]),
{
    let index_name = match &settings.name {
        Some(n) => n.clone(),
        None => name.clone(),
    };
    let mut items: Vec<ModelIndexItem> = Vec::new();
    items.push(ModelIndexItem { field_name: name.clone(), sort: settings.sort, len: settings.length });
    let r = ModelIndex { index_type, name: index_name, items };
    assert(index_names(r) =~= seq![name@]);
    r
}

impl ModelBuilder {
    /// Whether the model has a primary index: declared, or given by a field.
    pub open spec fn has_primary(&self) -> bool {
        self.primary is Some || primary_field(self.fields@) is Some
    }

    /// Builds the model: the key sets, the indexes that fields declare after the
    /// declared ones, and the primary index (a field marked primary wins over a
    /// declared one). An empty table name or path segment is derived from the name.
    pub fn build(self) -> (r: Model)
        requires
            self.has_primary(),
        ensures
            r.name == self.name,
            r.table_name@ == (if self.table_name@.len() == 0 { plural_of(lower_of(self.name@)) } else { self.table_name@ }),
            r.url_segment_name@ == (if self.url_segment_name@.len() == 0 { plural_of(kebab_of(self.name@)) } else { self.url_segment_name@ }),
            r.localized_name == self.localized_name,
            r.description == self.description,
            r.identity == self.identity,
            r.fields == self.fields,
            r.relations == self.relations,
            views(r.all_keys@) == names_with(self.fields@, |f: Field| selects(KeyKind::All, f)) + relation_names(self.relations@),
            views(r.input_keys@) == names_with(self.fields@, |f: Field| selects(KeyKind::Writable, f)) + relation_names(self.relations@),
            views(r.save_keys@) == names_with(self.fields@, |f: Field| selects(KeyKind::Stored, f)) + relation_names(self.relations@),
            views(r.output_keys@) == names_with(self.fields@, |f: Field| selects(KeyKind::Readable, f)) + relation_names(self.relations@),
            views(r.get_value_keys@) == names_with(self.fields@, |f: Field| selects(KeyKind::All, f)) + relation_names(self.relations@),
            views(r.query_keys@) == names_with(self.fields@, |f: Field| selects(KeyKind::Queryable, f)) + relation_names(self.relations@),
            views(r.auth_identity_keys@) == names_with(self.fields@, |f: Field| selects(KeyKind::AuthIdentity, f)),
            views(r.auth_by_keys@) == names_with(self.fields@, |f: Field| selects(KeyKind::AuthBy, f)),
            r.primary.index_type == ModelIndexType::Primary || primary_field(self.fields@) is None,
            primary_field(self.fields@) is None ==> r.primary == self.primary->0,
            index_names(r.primary) == (match primary_field(self.fields@) {
                Some(n) => seq![n],
                None => index_names(self.primary->0),
            }),
            r.indices@.len() == self.indices@.len() + field_indexes(self.fields@).len(),
            r.indices@.take(self.indices@.len() as int) == self.indices@,
            r.indices@.skip(self.indices@.len() as int).map_values(|ix: ModelIndex| summary(ix)) == field_indexes(self.fields@),
            set_views(r.unique_query_keys@) == unique_sets(r.indices@).push(index_names(r.primary)),
    {
        let all_keys = key_list(&self.fields, &self.relations, KeyKind::All, true);
        let input_keys = key_list(&self.fields, &self.relations, KeyKind::Writable, true);
        let save_keys = key_list(&self.fields, &self.relations, KeyKind::Stored, true);
        let output_keys = key_list(&self.fields, &self.relations, KeyKind::Readable, true);
        let get_value_keys = key_list(&self.fields, &self.relations, KeyKind::All, true);
        let query_keys = key_list(&self.fields, &self.relations, KeyKind::Queryable, true);
        let auth_identity_keys = key_list(&self.fields, &self.relations, KeyKind::AuthIdentity, false);
        let auth_by_keys = key_list(&self.fields, &self.relations, KeyKind::AuthBy, false);
        proof {
            assert(views(auth_identity_keys@) =~= names_with(self.fields@, |f: Field| selects(KeyKind::AuthIdentity, f)));
            assert(views(auth_by_keys@) =~= names_with(self.fields@, |f: Field| selects(KeyKind::AuthBy, f)));
        }
        let ModelBuilder { name, table_name, url_segment_name, localized_name, description, identity, internal: _, fields, relations, primary, indices } = self;
        let mut indices = indices;
        let ghost declared = indices@;
        let mut primary = primary;
        let mut i: usize = 0;
        while i < fields.len()
            invariant
                i <= fields@.len(),
                indices@.len() == declared.len() + field_indexes(fields@.take(i as int)).len(),
                indices@.take(declared.len() as int) == declared,
                indices@.skip(declared.len() as int).map_values(|ix: ModelIndex| summary(ix)) == field_indexes(fields@.take(i as int)),
                primary_field(fields@.take(i as int)) is Some ==> (primary matches Some(p) && p.index_type == ModelIndexType::Primary
                    && index_names(p) == seq![primary_field(fields@.take(i as int))->0]),
                primary_field(fields@.take(i as int)) is None ==> primary == self.primary,
            decreases fields.len() - i,
        {
            proof {
                assert(fields@.take(i as int + 1).drop_last() =~= fields@.take(i as int));
                assert(fields@.take(i as int + 1).last() == fields@[i as int]);
            }
            let f = &fields[i];
            if f.primary {
                let mut items: Vec<ModelIndexItem> = Vec::new();
                items.push(ModelIndexItem { field_name: f.name.clone(), sort: Sort::Asc, len: None });
                let p = ModelIndex { index_type: ModelIndexType::Primary, name: String::new(), items };
                assert(index_names(p) =~= seq![f.name@]);
                primary = Some(p);
            }
            let ghost before = indices@;
            match &f.index {
                FieldIndex::Index(settings) => {
                    indices.push(single_index(ModelIndexType::Index, &f.name, settings));
                },
                FieldIndex::Unique(settings) => {
                    indices.push(single_index(ModelIndexType::Unique, &f.name, settings));
                },
                FieldIndex::NoIndex => {},
            }
            proof {
                assert(indices@.take(declared.len() as int) =~= declared);
                assert(indices@.skip(declared.len() as int).map_values(|ix: ModelIndex| summary(ix))
                    =~= field_indexes(fields@.take(i as int + 1)));
            }
            i = i + 1;
        }
        assert(fields@.take(i as int) =~= fields@);
        let primary = primary.unwrap();
        let mut unique_query_keys: Vec<Vec<String>> = Vec::new();
        let mut j: usize = 0;
        while j < indices.len()
            invariant
                j <= indices@.len(),
                set_views(unique_query_keys@) == unique_sets(indices@.take(j as int)),
            decreases indices.len() - j,
        {
            proof {
                assert(indices@.take(j as int + 1).drop_last() =~= indices@.take(j as int));
                assert(indices@.take(j as int + 1).last() == indices@[j as int]);
            }
            let ix = &indices[j];
            if ix.index_type == ModelIndexType::Unique || ix.index_type == ModelIndexType::Primary {
                let ghost before = unique_query_keys@;
                unique_query_keys.push(names_of(ix));
                assert(set_views(unique_query_keys@) =~= set_views(before).push(index_names(*ix)));
            }
            j = j + 1;
        }
        assert(indices@.take(j as int) =~= indices@);
        let ghost before = unique_query_keys@;
        unique_query_keys.push(names_of(&primary));
        assert(set_views(unique_query_keys@) =~= set_views(before).push(index_names(primary)));
        let table_name = if table_name.as_str().unicode_len() == 0 {
            to_plural(to_lowercase(name.as_str()).as_str())
        } else {
            table_name
        };
        let url_segment_name = if url_segment_name.as_str().unicode_len() == 0 {
            to_plural(to_kebab_case(name.as_str()).as_str())
        } else {
            url_segment_name
        };
        Model {
            name,
            table_name,
            url_segment_name,
            localized_name,
            description,
            identity,
            fields,
            relations,
            primary,
            indices,
            all_keys,
            input_keys,
            save_keys,
            output_keys,
            get_value_keys,
            query_keys,
            unique_query_keys,
            auth_identity_keys,
            auth_by_keys,
        }
    }
}

} // verus!
