//! The type schema registry and the schema derivation rules.
//!
//! A [`TypeDesc`] describes the shape of a value type taking part in a
//! procedure signature: primitives, nullable wrappers, lists, maps,
//! fixed-arity tuples, named structs with fields, generic placeholders
//! with an optional substitution, transparent wrappers, and references to
//! already named types. From a descriptor the three schema operations
//! derive [`DataType`] nodes: `inline` (a fully expanded schema),
//! `reference` (a compact node that registers the full definition in the
//! registry exactly once), and `definition` (the full schema stored under
//! a name).
//!
//! The registry keeps the first definition stored under a name: a second
//! registration under the same name, and a collision while merging two
//! registries, leave the stored definition unchanged.

use vstd::prelude::*;

use crate::registry::TypeDefs;
use crate::value::fields_model;
use crate::value::lemma_fields_model;
use crate::value::lemma_list_model;
use crate::value::list_model;
use crate::value::Value;
use crate::value::ValueModel;

verus! {

/// A primitive schema kind.
#[derive(Clone, Copy, Debug, PartialEq, Eq, Structural)]
pub enum PrimitiveType {
    Bool,
    I32,
    U32,
    I64,
    Str,
}

/// A schema node. A `Named` node never embeds the full expansion of the
/// type it refers to; the expansion lives only in the registry.
#[derive(Debug, PartialEq)]
pub enum DataType {
    Primitive(PrimitiveType),
    Nullable(Box<DataType>),
    List(Box<DataType>),
    Tuple(Vec<DataType>),
    Record(Box<DataType>, Box<DataType>),
    Named(String),
    Generic(String),
    Object { name: String, fields: Vec<(String, DataType)> },
}

/// The mathematical model of a [`DataType`].
pub enum DataTypeModel {
    Primitive(PrimitiveType),
    Nullable(Box<DataTypeModel>),
    List(Box<DataTypeModel>),
    Tuple(Seq<DataTypeModel>),
    Record(Box<DataTypeModel>, Box<DataTypeModel>),
    Named(Seq<char>),
    Generic(Seq<char>),
    Object { name: Seq<char>, fields: Seq<(Seq<char>, DataTypeModel)> },
}

/// Model of a list of schema nodes, element by element.
pub open spec fn dt_list_model(s: Seq<DataType>) -> Seq<DataTypeModel>
    decreases s, 1nat,
{
    if s.len() == 0 {
        Seq::empty()
    } else {
        dt_list_model(s.drop_last()).push(s.last()@)
    }
}

/// Model of the named fields of an object node, pair by pair.
pub open spec fn dt_fields_model(s: Seq<(String, DataType)>) -> Seq<(Seq<char>, DataTypeModel)>
    decreases s, 1nat,
{
    if s.len() == 0 {
        Seq::empty()
    } else {
        dt_fields_model(s.drop_last()).push((s.last().0@, s.last().1@))
    }
}

impl View for DataType {
    type V = DataTypeModel;

    open spec fn view(&self) -> DataTypeModel
        decreases self, 0nat,
    {
        match self {
            DataType::Primitive(p) => DataTypeModel::Primitive(*p),
            DataType::Nullable(t) => DataTypeModel::Nullable(Box::new((**t)@)),
            DataType::List(t) => DataTypeModel::List(Box::new((**t)@)),
            DataType::Tuple(ts) => DataTypeModel::Tuple(dt_list_model(ts@)),
            DataType::Record(k, v) => DataTypeModel::Record(Box::new((**k)@), Box::new((**v)@)),
            DataType::Named(n) => DataTypeModel::Named(n@),
            DataType::Generic(n) => DataTypeModel::Generic(n@),
            DataType::Object { name, fields } => DataTypeModel::Object {
                name: name@,
                fields: dt_fields_model(fields@),
            },
        }
    }
}

/// A schema node list's model keeps its length and models each element.
pub proof fn lemma_dt_list_model(s: Seq<DataType>)
    ensures
        dt_list_model(s).len() == s.len(),
        forall|i: int| 0 <= i < s.len() ==> dt_list_model(s)[i] == #[trigger] s[i]@,
    decreases s.len(),
{
    if s.len() > 0 {
        lemma_dt_list_model(s.drop_last());
        assert(dt_list_model(s) == dt_list_model(s.drop_last()).push(s.last()@));
        assert forall|i: int| 0 <= i < s.len() implies dt_list_model(s)[i] == #[trigger] s[i]@ by {
            if i < s.len() - 1 {
                assert(s.drop_last()[i] == s[i]);
            }
        }
    }
}

/// An object field list's model keeps its length and models each pair.
pub proof fn lemma_dt_fields_model(s: Seq<(String, DataType)>)
    ensures
        dt_fields_model(s).len() == s.len(),
        forall|i: int|
            0 <= i < s.len() ==> dt_fields_model(s)[i] == (#[trigger] s[i].0@, s[i].1@),
    decreases s.len(),
{
    if s.len() > 0 {
        lemma_dt_fields_model(s.drop_last());
        assert(dt_fields_model(s) == dt_fields_model(s.drop_last()).push((s.last().0@, s.last().1@)));
        assert forall|i: int|
            0 <= i < s.len() implies dt_fields_model(s)[i] == (#[trigger] s[i].0@, s[i].1@) by {
            if i < s.len() - 1 {
                assert(s.drop_last()[i] == s[i]);
            }
        }
    }
}

/// A descriptor of a value type taking part in a procedure signature.
#[derive(Debug, PartialEq)]
pub enum TypeDesc {
    /// A primitive type.
    Primitive(PrimitiveType),
    /// A nullable or optional wrapper around an inner type.
    Optional(Box<TypeDesc>),
    /// A list-like container.
    ListOf(Box<TypeDesc>),
    /// A map-like container with a key type and a value type.
    MapOf(Box<TypeDesc>, Box<TypeDesc>),
    /// A fixed-arity tuple.
    TupleOf(Vec<TypeDesc>),
    /// A transparent wrapper (ownership or synchronization cell): its
    /// schema is the inner type's schema, unchanged.
    Transparent(Box<TypeDesc>),
    /// A named struct with ordered, named fields.
    Struct { name: String, fields: Vec<(String, TypeDesc)> },
    /// A generic placeholder, substituted when a concrete argument was
    /// supplied by the caller.
    Generic { name: String, concrete: Option<Box<TypeDesc>> },
    /// A reference, by name, to a type whose definition is already held
    /// by (or will be supplied to) the registry.
    NamedRef(String),
}

/// The mathematical model of a [`TypeDesc`].
pub enum TypeDescModel {
    Primitive(PrimitiveType),
    Optional(Box<TypeDescModel>),
    ListOf(Box<TypeDescModel>),
    MapOf(Box<TypeDescModel>, Box<TypeDescModel>),
    TupleOf(Seq<TypeDescModel>),
    Transparent(Box<TypeDescModel>),
    Struct { name: Seq<char>, fields: Seq<(Seq<char>, TypeDescModel)> },
    Generic { name: Seq<char>, concrete: Option<Box<TypeDescModel>> },
    NamedRef(Seq<char>),
}

/// Model of a list of descriptors, element by element.
pub open spec fn td_list_model(s: Seq<TypeDesc>) -> Seq<TypeDescModel>
    decreases s, 1nat,
{
    if s.len() == 0 {
        Seq::empty()
    } else {
        td_list_model(s.drop_last()).push(s.last()@)
    }
}

/// Model of the named fields of a struct descriptor, pair by pair.
pub open spec fn td_fields_model(s: Seq<(String, TypeDesc)>) -> Seq<(Seq<char>, TypeDescModel)>
    decreases s, 1nat,
{
    if s.len() == 0 {
        Seq::empty()
    } else {
        td_fields_model(s.drop_last()).push((s.last().0@, s.last().1@))
    }
}

impl View for TypeDesc {
    type V = TypeDescModel;

    open spec fn view(&self) -> TypeDescModel
        decreases self, 0nat,
    {
        match self {
            TypeDesc::Primitive(p) => TypeDescModel::Primitive(*p),
            TypeDesc::Optional(t) => TypeDescModel::Optional(Box::new((**t)@)),
            TypeDesc::ListOf(t) => TypeDescModel::ListOf(Box::new((**t)@)),
            TypeDesc::MapOf(k, v) => TypeDescModel::MapOf(Box::new((**k)@), Box::new((**v)@)),
            TypeDesc::TupleOf(ts) => TypeDescModel::TupleOf(td_list_model(ts@)),
            TypeDesc::Transparent(t) => TypeDescModel::Transparent(Box::new((**t)@)),
            TypeDesc::Struct { name, fields } => TypeDescModel::Struct {
                name: name@,
                fields: td_fields_model(fields@),
            },
            TypeDesc::Generic { name, concrete } => TypeDescModel::Generic {
                name: name@,
                concrete: match concrete {
                    Some(t) => Some(Box::new((**t)@)),
                    None => None,
                },
            },
            TypeDesc::NamedRef(n) => TypeDescModel::NamedRef(n@),
        }
    }
}

/// A descriptor list's model keeps its length and models each element.
pub proof fn lemma_td_list_model(s: Seq<TypeDesc>)
    ensures
        td_list_model(s).len() == s.len(),
        forall|i: int| 0 <= i < s.len() ==> td_list_model(s)[i] == #[trigger] s[i]@,
    decreases s.len(),
{
    if s.len() > 0 {
        lemma_td_list_model(s.drop_last());
        assert(td_list_model(s) == td_list_model(s.drop_last()).push(s.last()@));
        assert forall|i: int| 0 <= i < s.len() implies td_list_model(s)[i] == #[trigger] s[i]@ by {
            if i < s.len() - 1 {
                assert(s.drop_last()[i] == s[i]);
            }
        }
    }
}

/// A struct field list's model keeps its length and models each pair.
pub proof fn lemma_td_fields_model(s: Seq<(String, TypeDesc)>)
    ensures
        td_fields_model(s).len() == s.len(),
        forall|i: int|
            0 <= i < s.len() ==> td_fields_model(s)[i] == (#[trigger] s[i].0@, s[i].1@),
    decreases s.len(),
{
    if s.len() > 0 {
        lemma_td_fields_model(s.drop_last());
        assert(td_fields_model(s) == td_fields_model(s.drop_last()).push((s.last().0@, s.last().1@)));
        assert forall|i: int|
            0 <= i < s.len() implies td_fields_model(s)[i] == (#[trigger] s[i].0@, s[i].1@) by {
            if i < s.len() - 1 {
                assert(s.drop_last()[i] == s[i]);
            }
        }
    }
}

/// The registry model the schema operations thread through.
pub type DefsModel = Map<Seq<char>, DataTypeModel>;

/// What `reference` returns and how it grows the registry: a compact
/// node; for a named struct, the full definition is stored under its
/// name when the name is still free.
pub open spec fn spec_reference(d: TypeDescModel, m: DefsModel) -> (DataTypeModel, DefsModel)
    decreases d, 0nat,
{
    match d {
        TypeDescModel::Primitive(p) => (DataTypeModel::Primitive(p), m),
        TypeDescModel::Optional(t) => {
            let r = spec_reference(*t, m);
            (DataTypeModel::Nullable(Box::new(r.0)), r.1)
        },
        TypeDescModel::ListOf(t) => {
            let r = spec_reference(*t, m);
            (DataTypeModel::List(Box::new(r.0)), r.1)
        },
        TypeDescModel::MapOf(k, v) => {
            let rk = spec_reference(*k, m);
            let rv = spec_reference(*v, rk.1);
            (DataTypeModel::Record(Box::new(rk.0), Box::new(rv.0)), rv.1)
        },
        TypeDescModel::TupleOf(ts) => {
            let r = spec_ref_list(ts, m);
            (DataTypeModel::Tuple(r.0), r.1)
        },
        TypeDescModel::Transparent(t) => spec_reference(*t, m),
        TypeDescModel::Struct { name, fields } => {
            if m.contains_key(name) {
                (DataTypeModel::Named(name), m)
            } else {
                let r = spec_ref_fields(fields, m);
                let grown = if r.1.contains_key(name) {
                    r.1
                } else {
                    r.1.insert(name, DataTypeModel::Object { name, fields: r.0 })
                };
                (DataTypeModel::Named(name), grown)
            }
        },
        TypeDescModel::Generic { name, concrete } => match concrete {
            Some(t) => spec_reference(*t, m),
            None => (DataTypeModel::Generic(name), m),
        },
        TypeDescModel::NamedRef(n) => (DataTypeModel::Named(n), m),
    }
}

/// `reference` over a list of descriptors, left to right.
pub open spec fn spec_ref_list(ts: Seq<TypeDescModel>, m: DefsModel) -> (
    Seq<DataTypeModel>,
    DefsModel,
)
    decreases ts, 1nat,
{
    if ts.len() == 0 {
        (Seq::empty(), m)
    } else {
        let h = spec_reference(ts.first(), m);
        let r = spec_ref_list(ts.drop_first(), h.1);
        (seq![h.0] + r.0, r.1)
    }
}

/// `reference` over named fields, left to right.
pub open spec fn spec_ref_fields(fs: Seq<(Seq<char>, TypeDescModel)>, m: DefsModel) -> (
    Seq<(Seq<char>, DataTypeModel)>,
    DefsModel,
)
    decreases fs, 1nat,
{
    if fs.len() == 0 {
        (Seq::empty(), m)
    } else {
        let h = spec_reference(fs.first().1, m);
        let r = spec_ref_fields(fs.drop_first(), h.1);
        (seq![(fs.first().0, h.0)] + r.0, r.1)
    }
}

/// What `inline` returns: the fully expanded schema. `parent_inline`
/// decides whether the named types among a struct's fields are expanded
/// in place too, or turned into registered references; containers hand
/// their children `false`, so expansion stays bounded.
pub open spec fn spec_inline(d: TypeDescModel, parent_inline: bool, m: DefsModel) -> (
    DataTypeModel,
    DefsModel,
)
    decreases d, 0nat,
{
    match d {
        TypeDescModel::Primitive(p) => (DataTypeModel::Primitive(p), m),
        TypeDescModel::Optional(t) => {
            let r = spec_inline(*t, false, m);
            (DataTypeModel::Nullable(Box::new(r.0)), r.1)
        },
        TypeDescModel::ListOf(t) => {
            let r = spec_inline(*t, false, m);
            (DataTypeModel::List(Box::new(r.0)), r.1)
        },
        TypeDescModel::MapOf(k, v) => {
            let rk = spec_inline(*k, false, m);
            let rv = spec_inline(*v, false, rk.1);
            (DataTypeModel::Record(Box::new(rk.0), Box::new(rv.0)), rv.1)
        },
        TypeDescModel::TupleOf(ts) => {
            let r = spec_inl_list(ts, m);
            (DataTypeModel::Tuple(r.0), r.1)
        },
        TypeDescModel::Transparent(t) => spec_inline(*t, parent_inline, m),
        TypeDescModel::Struct { name, fields } => {
            if parent_inline {
                let r = spec_inl_fields(fields, m);
                (DataTypeModel::Object { name, fields: r.0 }, r.1)
            } else {
                let r = spec_ref_fields(fields, m);
                (DataTypeModel::Object { name, fields: r.0 }, r.1)
            }
        },
        TypeDescModel::Generic { name, concrete } => match concrete {
            Some(t) => spec_inline(*t, parent_inline, m),
            None => (DataTypeModel::Generic(name), m),
        },
        TypeDescModel::NamedRef(n) => (DataTypeModel::Named(n), m),
    }
}

/// `inline` over a list of descriptors, left to right, children not
/// expanding their own named fields.
pub open spec fn spec_inl_list(ts: Seq<TypeDescModel>, m: DefsModel) -> (
    Seq<DataTypeModel>,
    DefsModel,
)
    decreases ts, 1nat,
{
    if ts.len() == 0 {
        (Seq::empty(), m)
    } else {
        let h = spec_inline(ts.first(), false, m);
        let r = spec_inl_list(ts.drop_first(), h.1);
        (seq![h.0] + r.0, r.1)
    }
}

/// `inline` over named fields, left to right.
pub open spec fn spec_inl_fields(fs: Seq<(Seq<char>, TypeDescModel)>, m: DefsModel) -> (
    Seq<(Seq<char>, DataTypeModel)>,
    DefsModel,
)
    decreases fs, 1nat,
{
    if fs.len() == 0 {
        (Seq::empty(), m)
    } else {
        let h = spec_inline(fs.first().1, false, m);
        let r = spec_inl_fields(fs.drop_first(), h.1);
        (seq![(fs.first().0, h.0)] + r.0, r.1)
    }
}

/// Derives the compact schema node for a descriptor, registering the
/// full definition of every named struct it meets exactly once: a name
/// the registry already holds is never re-expanded.
pub fn reference(desc: &TypeDesc, defs: &mut TypeDefs) -> (r: DataType)
    requires
        old(defs).wf(),
    ensures
        final(defs).wf(),
        r@ == spec_reference(desc@, old(defs)@).0,
        final(defs)@ == spec_reference(desc@, old(defs)@).1,
    decreases desc, 0nat,
{
    match desc {
        TypeDesc::Primitive(p) => DataType::Primitive(*p),
        TypeDesc::Optional(t) => DataType::Nullable(Box::new(reference(&**t, defs))),
        TypeDesc::ListOf(t) => DataType::List(Box::new(reference(&**t, defs))),
        TypeDesc::MapOf(k, v) => {
            let kd = reference(&**k, defs);
            let vd = reference(&**v, defs);
            DataType::Record(Box::new(kd), Box::new(vd))
        },
        TypeDesc::TupleOf(ts) => DataType::Tuple(ref_list(ts, defs)),
        TypeDesc::Transparent(t) => reference(&**t, defs),
        TypeDesc::Struct { name, fields } => {
            if defs.contains(name.as_str()) {
                DataType::Named(name.clone())
            } else {
                let fs = ref_fields(fields, defs);
                let obj = DataType::Object { name: name.clone(), fields: fs };
                defs.declare(name.clone(), obj);
                DataType::Named(name.clone())
            }
        },
        TypeDesc::Generic { name, concrete } => match concrete {
            Some(t) => reference(&**t, defs),
            None => DataType::Generic(name.clone()),
        },
        TypeDesc::NamedRef(n) => DataType::Named(n.clone()),
    }
}

/// `reference` over the element descriptors of a tuple, left to right.
fn ref_list(ts: &Vec<TypeDesc>, defs: &mut TypeDefs) -> (r: Vec<DataType>)
    requires
        old(defs).wf(),
    ensures
        final(defs).wf(),
        dt_list_model(r@) == spec_ref_list(td_list_model(ts@), old(defs)@).0,
        final(defs)@ == spec_ref_list(td_list_model(ts@), old(defs)@).1,
    decreases ts@, 1nat,
{
    let ghost m0 = defs@;
    let ghost full = td_list_model(ts@);
    proof {
        lemma_td_list_model(ts@);
        assert(full.subrange(0, ts@.len() as int) =~= full);
    }
    let n = ts.len();
    let mut out: Vec<DataType> = Vec::new();
    let mut i: usize = 0;
    while i < n
        invariant
            defs.wf(),
            i <= n,
            n == ts@.len(),
            full == td_list_model(ts@),
            full.len() == n,
            forall|j: int| 0 <= j < n ==> full[j] == #[trigger] ts@[j]@,
            dt_list_model(out@) + spec_ref_list(full.subrange(i as int, n as int), defs@).0
                == spec_ref_list(full, m0).0,
            spec_ref_list(full.subrange(i as int, n as int), defs@).1 == spec_ref_list(
                full,
                m0,
            ).1,
        decreases n - i,
    {
        let ghost pre = defs@;
        let ghost sub = full.subrange(i as int, n as int);
        proof {
            assert(sub.first() == full[i as int]);
            assert(sub.drop_first() =~= full.subrange(i as int + 1, n as int));
        }
        let dt = reference(&ts[i], defs);
        let ghost out_pre = out@;
        out.push(dt);
        proof {
            assert(out@.drop_last() =~= out_pre);
            assert(dt_list_model(out@) == dt_list_model(out_pre).push(out@.last()@));
            assert(dt_list_model(out@) + spec_ref_list(sub.drop_first(), defs@).0
                =~= dt_list_model(out_pre) + spec_ref_list(sub, pre).0);
        }
        i += 1;
    }
    proof {
        assert(full.subrange(n as int, n as int) =~= Seq::<TypeDescModel>::empty());
        assert(dt_list_model(out@) + Seq::<DataTypeModel>::empty() =~= dt_list_model(out@));
    }
    out
}

/// `reference` over the named fields of a struct, left to right.
fn ref_fields(fields: &Vec<(String, TypeDesc)>, defs: &mut TypeDefs) -> (r: Vec<
    (String, DataType),
>)
    requires
        old(defs).wf(),
    ensures
        final(defs).wf(),
        dt_fields_model(r@) == spec_ref_fields(td_fields_model(fields@), old(defs)@).0,
        final(defs)@ == spec_ref_fields(td_fields_model(fields@), old(defs)@).1,
    decreases fields@, 1nat,
{
    let ghost m0 = defs@;
    let ghost full = td_fields_model(fields@);
    proof {
        lemma_td_fields_model(fields@);
        assert(full.subrange(0, fields@.len() as int) =~= full);
    }
    let n = fields.len();
    let mut out: Vec<(String, DataType)> = Vec::new();
    let mut i: usize = 0;
    while i < n
        invariant
            defs.wf(),
            i <= n,
            n == fields@.len(),
            full == td_fields_model(fields@),
            full.len() == n,
            forall|j: int|
                0 <= j < n ==> full[j] == (#[trigger] fields@[j].0@, fields@[j].1@),
            dt_fields_model(out@) + spec_ref_fields(full.subrange(i as int, n as int), defs@).0
                == spec_ref_fields(full, m0).0,
            spec_ref_fields(full.subrange(i as int, n as int), defs@).1 == spec_ref_fields(
                full,
                m0,
            ).1,
        decreases n - i,
    {
        let ghost pre = defs@;
        let ghost sub = full.subrange(i as int, n as int);
        proof {
            assert(sub.first() == full[i as int]);
            assert(sub.drop_first() =~= full.subrange(i as int + 1, n as int));
        }
        let dt = reference(&fields[i].1, defs);
        let key = fields[i].0.clone();
        let ghost out_pre = out@;
        out.push((key, dt));
        proof {
            assert(out@.drop_last() =~= out_pre);
            assert(dt_fields_model(out@) == dt_fields_model(out_pre).push(
                (out@.last().0@, out@.last().1@),
            ));
            assert(dt_fields_model(out@) + spec_ref_fields(sub.drop_first(), defs@).0
                =~= dt_fields_model(out_pre) + spec_ref_fields(sub, pre).0);
        }
        i += 1;
    }
    proof {
        assert(full.subrange(n as int, n as int) =~= Seq::<
            (Seq<char>, TypeDescModel),
        >::empty());
        assert(dt_fields_model(out@) + Seq::<(Seq<char>, DataTypeModel)>::empty()
            =~= dt_fields_model(out@));
    }
    out
}

/// Derives the fully expanded schema for a descriptor. `parent_inline`
/// decides whether the named types among a struct's fields are expanded
/// in place too, or turned into registered references.
pub fn inline(desc: &TypeDesc, parent_inline: bool, defs: &mut TypeDefs) -> (r: DataType)
    requires
        old(defs).wf(),
    ensures
        final(defs).wf(),
        r@ == spec_inline(desc@, parent_inline, old(defs)@).0,
        final(defs)@ == spec_inline(desc@, parent_inline, old(defs)@).1,
    decreases desc, 0nat,
{
    match desc {
        TypeDesc::Primitive(p) => DataType::Primitive(*p),
        TypeDesc::Optional(t) => DataType::Nullable(Box::new(inline(&**t, false, defs))),
        TypeDesc::ListOf(t) => DataType::List(Box::new(inline(&**t, false, defs))),
        TypeDesc::MapOf(k, v) => {
            let kd = inline(&**k, false, defs);
            let vd = inline(&**v, false, defs);
            DataType::Record(Box::new(kd), Box::new(vd))
        },
        TypeDesc::TupleOf(ts) => DataType::Tuple(inl_list(ts, defs)),
        TypeDesc::Transparent(t) => inline(&**t, parent_inline, defs),
        TypeDesc::Struct { name, fields } => {
            if parent_inline {
                let fs = inl_fields(fields, defs);
                DataType::Object { name: name.clone(), fields: fs }
            } else {
                let fs = ref_fields(fields, defs);
                DataType::Object { name: name.clone(), fields: fs }
            }
        },
        TypeDesc::Generic { name, concrete } => match concrete {
            Some(t) => inline(&**t, parent_inline, defs),
            None => DataType::Generic(name.clone()),
        },
        TypeDesc::NamedRef(n) => DataType::Named(n.clone()),
    }
}

/// `inline` over the element descriptors of a tuple, left to right.
fn inl_list(ts: &Vec<TypeDesc>, defs: &mut TypeDefs) -> (r: Vec<DataType>)
    requires
        old(defs).wf(),
    ensures
        final(defs).wf(),
        dt_list_model(r@) == spec_inl_list(td_list_model(ts@), old(defs)@).0,
        final(defs)@ == spec_inl_list(td_list_model(ts@), old(defs)@).1,
    decreases ts@, 1nat,
{
    let ghost m0 = defs@;
    let ghost full = td_list_model(ts@);
    proof {
        lemma_td_list_model(ts@);
        assert(full.subrange(0, ts@.len() as int) =~= full);
    }
    let n = ts.len();
    let mut out: Vec<DataType> = Vec::new();
    let mut i: usize = 0;
    while i < n
        invariant
            defs.wf(),
            i <= n,
            n == ts@.len(),
            full == td_list_model(ts@),
            full.len() == n,
            forall|j: int| 0 <= j < n ==> full[j] == #[trigger] ts@[j]@,
            dt_list_model(out@) + spec_inl_list(full.subrange(i as int, n as int), defs@).0
                == spec_inl_list(full, m0).0,
            spec_inl_list(full.subrange(i as int, n as int), defs@).1 == spec_inl_list(
                full,
                m0,
            ).1,
        decreases n - i,
    {
        let ghost pre = defs@;
        let ghost sub = full.subrange(i as int, n as int);
        proof {
            assert(sub.first() == full[i as int]);
            assert(sub.drop_first() =~= full.subrange(i as int + 1, n as int));
        }
        let dt = inline(&ts[i], false, defs);
        let ghost out_pre = out@;
        out.push(dt);
        proof {
            assert(out@.drop_last() =~= out_pre);
            assert(dt_list_model(out@) == dt_list_model(out_pre).push(out@.last()@));
            assert(dt_list_model(out@) + spec_inl_list(sub.drop_first(), defs@).0
                =~= dt_list_model(out_pre) + spec_inl_list(sub, pre).0);
        }
        i += 1;
    }
    proof {
        assert(full.subrange(n as int, n as int) =~= Seq::<TypeDescModel>::empty());
        assert(dt_list_model(out@) + Seq::<DataTypeModel>::empty() =~= dt_list_model(out@));
    }
    out
}

/// `inline` over the named fields of a struct, left to right.
fn inl_fields(fields: &Vec<(String, TypeDesc)>, defs: &mut TypeDefs) -> (r: Vec<
    (String, DataType),
>)
    requires
        old(defs).wf(),
    ensures
        final(defs).wf(),
        dt_fields_model(r@) == spec_inl_fields(td_fields_model(fields@), old(defs)@).0,
        final(defs)@ == spec_inl_fields(td_fields_model(fields@), old(defs)@).1,
    decreases fields@, 1nat,
{
    let ghost m0 = defs@;
    let ghost full = td_fields_model(fields@);
    proof {
        lemma_td_fields_model(fields@);
        assert(full.subrange(0, fields@.len() as int) =~= full);
    }
    let n = fields.len();
    let mut out: Vec<(String, DataType)> = Vec::new();
    let mut i: usize = 0;
    while i < n
        invariant
            defs.wf(),
            i <= n,
            n == fields@.len(),
            full == td_fields_model(fields@),
            full.len() == n,
            forall|j: int|
                0 <= j < n ==> full[j] == (#[trigger] fields@[j].0@, fields@[j].1@),
            dt_fields_model(out@) + spec_inl_fields(full.subrange(i as int, n as int), defs@).0
                == spec_inl_fields(full, m0).0,
            spec_inl_fields(full.subrange(i as int, n as int), defs@).1 == spec_inl_fields(
                full,
                m0,
            ).1,
        decreases n - i,
    {
        let ghost pre = defs@;
        let ghost sub = full.subrange(i as int, n as int);
        proof {
            assert(sub.first() == full[i as int]);
            assert(sub.drop_first() =~= full.subrange(i as int + 1, n as int));
        }
        let dt = inline(&fields[i].1, false, defs);
        let key = fields[i].0.clone();
        let ghost out_pre = out@;
        out.push((key, dt));
        proof {
            assert(out@.drop_last() =~= out_pre);
            assert(dt_fields_model(out@) == dt_fields_model(out_pre).push(
                (out@.last().0@, out@.last().1@),
            ));
            assert(dt_fields_model(out@) + spec_inl_fields(sub.drop_first(), defs@).0
                =~= dt_fields_model(out_pre) + spec_inl_fields(sub, pre).0);
        }
        i += 1;
    }
    proof {
        assert(full.subrange(n as int, n as int) =~= Seq::<
            (Seq<char>, TypeDescModel),
        >::empty());
        assert(dt_fields_model(out@) + Seq::<(Seq<char>, DataTypeModel)>::empty()
            =~= dt_fields_model(out@));
    }
    out
}

/// Materializes the full schema stored for a named type; only a named
/// struct has one, any other descriptor yields nothing and leaves the
/// registry unchanged.
pub fn definition(desc: &TypeDesc, defs: &mut TypeDefs) -> (r: Option<DataType>)
    requires
        old(defs).wf(),
    ensures
        final(defs).wf(),
        match r {
            Some(dt) => spec_definition(desc@, old(defs)@) matches Some(p) && p.0 == dt@ && p.1
                == final(defs)@,
            None => spec_definition(desc@, old(defs)@) is None && final(defs)@ == old(defs)@,
        },
{
    match desc {
        TypeDesc::Struct { name, fields } => {
            let fs = ref_fields(fields, defs);
            Some(DataType::Object { name: name.clone(), fields: fs })
        },
        _ => None,
    }
}

/// What `definition` returns: the full schema stored for a named type;
/// only a named struct has one.
pub open spec fn spec_definition(d: TypeDescModel, m: DefsModel) -> Option<
    (DataTypeModel, DefsModel),
> {
    match d {
        TypeDescModel::Struct { name, fields } => {
            let r = spec_ref_fields(fields, m);
            Some((DataTypeModel::Object { name, fields: r.0 }, r.1))
        },
        _ => None,
    }
}

/// Law: registering the same named type twice yields the identical
/// stored definition and no re-expansion: once the first `reference`
/// has run, the registry holds the name, so a second `reference` of
/// the same descriptor returns the same compact node and leaves the
/// registry exactly as the first left it.
pub proof fn lemma_reference_idempotent(
    name: Seq<char>,
    fields: Seq<(Seq<char>, TypeDescModel)>,
    m: DefsModel,
)
    ensures
        ({
            let d = TypeDescModel::Struct { name, fields };
            let first = spec_reference(d, m);
            spec_reference(d, first.1) == (first.0, first.1)
        }),
{
    let d = TypeDescModel::Struct { name, fields };
    let first = spec_reference(d, m);
    if m.contains_key(name) {
        assert(first.1 == m);
    } else {
        let r = spec_ref_fields(fields, m);
        if r.1.contains_key(name) {
            assert(first.1 == r.1);
        } else {
            assert(first.1 == r.1.insert(name, DataTypeModel::Object { name, fields: r.0 }));
        }
    }
    assert(first.1.contains_key(name));
    assert(first.0 == DataTypeModel::Named(name));
}

/// The text models of an object's keys, each as a value of its own.
pub open spec fn field_keys(fs: Seq<(Seq<char>, ValueModel)>) -> Seq<ValueModel> {
    Seq::new(fs.len(), |i: int| ValueModel::Text(fs[i].0))
}

/// The value models of an object's fields.
pub open spec fn field_values(fs: Seq<(Seq<char>, ValueModel)>) -> Seq<ValueModel> {
    Seq::new(fs.len(), |i: int| fs[i].1)
}

/// Whether a structured value decodes against a descriptor. This is the
/// decoding contract of the dispatch boundary: an argument that does not
/// conform is refused with a decoding error. An object must carry
/// exactly the declared fields, in declaration order; an unsubstituted
/// generic placeholder and a reference by name admit no value here.
pub open spec fn spec_conforms(v: ValueModel, d: TypeDescModel) -> bool
    decreases d, 0nat, 0nat,
{
    match d {
        TypeDescModel::Primitive(p) => match p {
            PrimitiveType::Bool => v is Bool,
            PrimitiveType::I32 => v matches ValueModel::Num(n) && -0x8000_0000 <= n <= 0x7fff_ffff,
            PrimitiveType::U32 => v matches ValueModel::Num(n) && 0 <= n <= 0xffff_ffff,
            PrimitiveType::I64 => v is Num,
            PrimitiveType::Str => v is Text,
        },
        TypeDescModel::Optional(t) => v is Null || spec_conforms(v, *t),
        TypeDescModel::ListOf(t) => v matches ValueModel::List(items) && spec_conforms_all(
            items,
            *t,
        ),
        TypeDescModel::MapOf(k, val) => v matches ValueModel::Object(fs) && spec_conforms_all(
            field_keys(fs),
            *k,
        ) && spec_conforms_all(field_values(fs), *val),
        TypeDescModel::TupleOf(ts) => v matches ValueModel::List(items) && items.len()
            == ts.len() && spec_conforms_zip(items, ts),
        TypeDescModel::Transparent(t) => spec_conforms(v, *t),
        TypeDescModel::Struct { fields, .. } => v matches ValueModel::Object(ofs) && ofs.len()
            == fields.len() && spec_conforms_fields(ofs, fields),
        TypeDescModel::Generic { concrete, .. } => concrete matches Some(t) && spec_conforms(
            v,
            *t,
        ),
        TypeDescModel::NamedRef(_) => false,
    }
}

/// Every element of a list conforms to one element descriptor.
pub open spec fn spec_conforms_all(items: Seq<ValueModel>, t: TypeDescModel) -> bool
    decreases t, 1nat, items.len(),
{
    items.len() == 0 || (spec_conforms(items.first(), t) && spec_conforms_all(
        items.drop_first(),
        t,
    ))
}

/// Tuple elements conform positionally to the element descriptors.
pub open spec fn spec_conforms_zip(items: Seq<ValueModel>, ts: Seq<TypeDescModel>) -> bool
    decreases ts, 1nat, 0nat,
{
    ts.len() == 0 || (items.len() > 0 && spec_conforms(items.first(), ts.first())
        && spec_conforms_zip(items.drop_first(), ts.drop_first()))
}

/// Object fields carry the declared names, in order, with conforming
/// values.
pub open spec fn spec_conforms_fields(
    ofs: Seq<(Seq<char>, ValueModel)>,
    fields: Seq<(Seq<char>, TypeDescModel)>,
) -> bool
    decreases fields, 1nat, 0nat,
{
    fields.len() == 0 || (ofs.len() > 0 && ofs.first().0 == fields.first().0 && spec_conforms(
        ofs.first().1,
        fields.first().1,
    ) && spec_conforms_fields(ofs.drop_first(), fields.drop_first()))
}

/// Decides whether a value decodes against a descriptor.
#[verifier::loop_isolation(false)]
pub fn conforms(v: &Value, d: &TypeDesc) -> (r: bool)
    ensures
        r == spec_conforms(v@, d@),
    decreases d, 0nat, 0nat,
{
    match d {
        TypeDesc::Primitive(p) => match p {
            PrimitiveType::Bool => matches!(v, Value::Bool(_)),
            PrimitiveType::I32 => match v {
                Value::Num(n) => -0x8000_0000i64 <= *n && *n <= 0x7fff_ffffi64,
                _ => false,
            },
            PrimitiveType::U32 => match v {
                Value::Num(n) => 0i64 <= *n && *n <= 0xffff_ffffi64,
                _ => false,
            },
            PrimitiveType::I64 => matches!(v, Value::Num(_)),
            PrimitiveType::Str => matches!(v, Value::Text(_)),
        },
        TypeDesc::Optional(t) => match v {
            Value::Null => true,
            _ => conforms(v, &**t),
        },
        TypeDesc::ListOf(t) => match v {
            Value::List(items) => {
                let ghost lm = list_model(items@);
                proof {
                    lemma_list_model(items@);
                    assert(lm.subrange(0, items@.len() as int) =~= lm);
                }
                let n = items.len();
                let mut i: usize = 0;
                while i < n
                    invariant
                        i <= n,
                        n == items@.len(),
                        lm == list_model(items@),
                        lm.len() == n,
                        forall|j: int| 0 <= j < n ==> lm[j] == #[trigger] items@[j]@,
                        spec_conforms_all(lm, t@) == spec_conforms_all(
                            lm.subrange(i as int, n as int),
                            t@,
                        ),
                    decreases n - i,
                {
                    let ghost sub = lm.subrange(i as int, n as int);
                    proof {
                        assert(sub.first() == lm[i as int]);
                        assert(sub.drop_first() =~= lm.subrange(i as int + 1, n as int));
                    }
                    if !conforms(&items[i], &**t) {
                        return false;
                    }
                    i += 1;
                }
                proof {
                    assert(lm.subrange(n as int, n as int) =~= Seq::<ValueModel>::empty());
                }
                true
            },
            _ => false,
        },
        TypeDesc::MapOf(k, val) => match v {
            Value::Object(fields) => {
                let ghost fm = fields_model(fields@);
                let ghost ks = field_keys(fm);
                let ghost vs = field_values(fm);
                proof {
                    lemma_fields_model(fields@);
                    assert(ks.subrange(0, fields@.len() as int) =~= ks);
                    assert(vs.subrange(0, fields@.len() as int) =~= vs);
                }
                let n = fields.len();
                let mut i: usize = 0;
                while i < n
                    invariant
                        i <= n,
                        n == fields@.len(),
                        fm == fields_model(fields@),
                        fm.len() == n,
                        ks == field_keys(fm),
                        vs == field_values(fm),
                        forall|j: int|
                            0 <= j < n ==> fm[j] == (#[trigger] fields@[j].0@, fields@[j].1@),
                        spec_conforms_all(ks, k@) == spec_conforms_all(
                            ks.subrange(i as int, n as int),
                            k@,
                        ),
                        spec_conforms_all(vs, val@) == spec_conforms_all(
                            vs.subrange(i as int, n as int),
                            val@,
                        ),
                    decreases n - i,
                {
                    let ghost ksub = ks.subrange(i as int, n as int);
                    let ghost vsub = vs.subrange(i as int, n as int);
                    proof {
                        assert(ksub.first() == ks[i as int]);
                        assert(ksub.drop_first() =~= ks.subrange(i as int + 1, n as int));
                        assert(vsub.first() == vs[i as int]);
                        assert(vsub.drop_first() =~= vs.subrange(i as int + 1, n as int));
                    }
                    let key_value = Value::Text(fields[i].0.clone());
                    if !conforms(&key_value, &**k) {
                        return false;
                    }
                    if !conforms(&fields[i].1, &**val) {
                        return false;
                    }
                    i += 1;
                }
                proof {
                    assert(ks.subrange(n as int, n as int) =~= Seq::<ValueModel>::empty());
                    assert(vs.subrange(n as int, n as int) =~= Seq::<ValueModel>::empty());
                }
                true
            },
            _ => false,
        },
        TypeDesc::TupleOf(ts) => match v {
            Value::List(items) => {
                if items.len() != ts.len() {
                    proof {
                        lemma_list_model(items@);
                        lemma_td_list_model(ts@);
                    }
                    return false;
                }
                let ghost lm = list_model(items@);
                let ghost tm = td_list_model(ts@);
                proof {
                    lemma_list_model(items@);
                    lemma_td_list_model(ts@);
                    assert(lm.subrange(0, items@.len() as int) =~= lm);
                    assert(tm.subrange(0, ts@.len() as int) =~= tm);
                }
                let n = ts.len();
                let mut i: usize = 0;
                while i < n
                    invariant
                        i <= n,
                        n == ts@.len(),
                        n == items@.len(),
                        lm == list_model(items@),
                        tm == td_list_model(ts@),
                        lm.len() == n,
                        tm.len() == n,
                        forall|j: int| 0 <= j < n ==> lm[j] == #[trigger] items@[j]@,
                        forall|j: int| 0 <= j < n ==> tm[j] == #[trigger] ts@[j]@,
                        spec_conforms_zip(lm, tm) == spec_conforms_zip(
                            lm.subrange(i as int, n as int),
                            tm.subrange(i as int, n as int),
                        ),
                    decreases n - i,
                {
                    let ghost lsub = lm.subrange(i as int, n as int);
                    let ghost tsub = tm.subrange(i as int, n as int);
                    proof {
                        assert(lsub.first() == lm[i as int]);
                        assert(tsub.first() == tm[i as int]);
                        assert(lsub.drop_first() =~= lm.subrange(i as int + 1, n as int));
                        assert(tsub.drop_first() =~= tm.subrange(i as int + 1, n as int));
                    }
                    if !conforms(&items[i], &ts[i]) {
                        return false;
                    }
                    i += 1;
                }
                proof {
                    assert(lm.subrange(n as int, n as int) =~= Seq::<ValueModel>::empty());
                    assert(tm.subrange(n as int, n as int) =~= Seq::<TypeDescModel>::empty());
                }
                true
            },
            _ => false,
        },
        TypeDesc::Transparent(t) => conforms(v, &**t),
        TypeDesc::Struct { fields, .. } => match v {
            Value::Object(ofields) => {
                if ofields.len() != fields.len() {
                    proof {
                        lemma_fields_model(ofields@);
                        lemma_td_fields_model(fields@);
                    }
                    return false;
                }
                let ghost om = fields_model(ofields@);
                let ghost dm = td_fields_model(fields@);
                proof {
                    lemma_fields_model(ofields@);
                    lemma_td_fields_model(fields@);
                    assert(om.subrange(0, ofields@.len() as int) =~= om);
                    assert(dm.subrange(0, fields@.len() as int) =~= dm);
                }
                let n = fields.len();
                let mut i: usize = 0;
                while i < n
                    invariant
                        i <= n,
                        n == fields@.len(),
                        n == ofields@.len(),
                        om == fields_model(ofields@),
                        dm == td_fields_model(fields@),
                        om.len() == n,
                        dm.len() == n,
                        forall|j: int|
                            0 <= j < n ==> om[j] == (#[trigger] ofields@[j].0@, ofields@[j].1@),
                        forall|j: int|
                            0 <= j < n ==> dm[j] == (#[trigger] fields@[j].0@, fields@[j].1@),
                        spec_conforms_fields(om, dm) == spec_conforms_fields(
                            om.subrange(i as int, n as int),
                            dm.subrange(i as int, n as int),
                        ),
                    decreases n - i,
                {
                    let ghost osub = om.subrange(i as int, n as int);
                    let ghost dsub = dm.subrange(i as int, n as int);
                    proof {
                        assert(osub.first() == om[i as int]);
                        assert(dsub.first() == dm[i as int]);
                        assert(osub.drop_first() =~= om.subrange(i as int + 1, n as int));
                        assert(dsub.drop_first() =~= dm.subrange(i as int + 1, n as int));
                    }
                    if !crate::naming::str_eq(ofields[i].0.as_str(), fields[i].0.as_str()) {
                        return false;
                    }
                    if !conforms(&ofields[i].1, &fields[i].1) {
                        return false;
                    }
                    i += 1;
                }
                proof {
                    assert(om.subrange(n as int, n as int) =~= Seq::<
                        (Seq<char>, ValueModel),
                    >::empty());
                    assert(dm.subrange(n as int, n as int) =~= Seq::<
                        (Seq<char>, TypeDescModel),
                    >::empty());
                }
                true
            },
            _ => false,
        },
        TypeDesc::Generic { concrete, .. } => match concrete {
            Some(t) => conforms(v, &**t),
            None => false,
        },
        TypeDesc::NamedRef(_) => false,
    }
}

} // verus!
