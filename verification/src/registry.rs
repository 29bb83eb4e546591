//! The type schema registry: a mapping from stable type name to full
//! schema definition, built only while a router is constructed and
//! read-only thereafter.
//!
//! Registration keeps the first definition stored under a name: declaring
//! the same name again leaves the stored definition unchanged, so
//! registration is idempotent and no re-expansion ever replaces an entry.
//! The same rule resolves collisions when two registries are merged.

use vstd::prelude::*;

use crate::naming::str_eq;
use crate::schema::DataType;
use crate::schema::DataTypeModel;

verus! {

/// Model of an entry list as a name-to-definition map; later entries
/// would win, but the registry never holds two entries with one name.
pub open spec fn defs_map(s: Seq<(String, DataType)>) -> Map<Seq<char>, DataTypeModel>
    decreases s,
{
    if s.len() == 0 {
        Map::empty()
    } else {
        defs_map(s.drop_last()).insert(s.last().0@, s.last().1@)
    }
}

/// Every entry's name is a key of the model.
pub proof fn lemma_defs_map_contains(s: Seq<(String, DataType)>, i: int)
    requires
        0 <= i < s.len(),
    ensures
        defs_map(s).contains_key(s[i].0@),
    decreases s.len(),
{
    if i < s.len() - 1 {
        lemma_defs_map_contains(s.drop_last(), i);
        assert(s.drop_last()[i] == s[i]);
    }
}

/// A name no entry carries is no key of the model.
pub proof fn lemma_defs_map_absent(s: Seq<(String, DataType)>, k: Seq<char>)
    requires
        forall|i: int| 0 <= i < s.len() ==> (#[trigger] s[i].0@) != k,
    ensures
        !defs_map(s).contains_key(k),
    decreases s.len(),
{
    if s.len() > 0 {
        assert forall|i: int| 0 <= i < s.drop_last().len() implies (#[trigger] s.drop_last()[i].0@)
            != k by {
            assert(s.drop_last()[i] == s[i]);
        }
        lemma_defs_map_absent(s.drop_last(), k);
    }
}

/// With pairwise distinct names, each entry's definition is the one the
/// model holds under its name.
pub proof fn lemma_defs_map_get(s: Seq<(String, DataType)>, i: int)
    requires
        0 <= i < s.len(),
        forall|p: int, q: int|
            0 <= p < s.len() && 0 <= q < s.len() && p != q ==> (#[trigger] s[p].0@) != (
            #[trigger] s[q].0@),
    ensures
        defs_map(s)[s[i].0@] == s[i].1@,
    decreases s.len(),
{
    if i == s.len() - 1 {
    } else {
        assert(s.drop_last()[i] == s[i]);
        assert forall|p: int, q: int|
            0 <= p < s.drop_last().len() && 0 <= q < s.drop_last().len() && p != q implies (
        #[trigger] s.drop_last()[p].0@) != (#[trigger] s.drop_last()[q].0@) by {
            assert(s.drop_last()[p] == s[p]);
            assert(s.drop_last()[q] == s[q]);
        }
        lemma_defs_map_get(s.drop_last(), i);
        assert(s[i].0@ != s.last().0@);
    }
}

/// The type schema registry.
pub struct TypeDefs {
    entries: Vec<(String, DataType)>,
}

impl View for TypeDefs {
    type V = Map<Seq<char>, DataTypeModel>;

    closed spec fn view(&self) -> Map<Seq<char>, DataTypeModel> {
        defs_map(self.entries@)
    }
}

impl TypeDefs {
    /// The registry never holds two definitions under one name.
    pub closed spec fn wf(&self) -> bool {
        forall|p: int, q: int|
            0 <= p < self.entries@.len() && 0 <= q < self.entries@.len() && p != q ==> (
            #[trigger] self.entries@[p].0@) != (#[trigger] self.entries@[q].0@)
    }

    /// An empty registry.
    pub fn new() -> (r: TypeDefs)
        ensures
            r.wf(),
            r@ == Map::<Seq<char>, DataTypeModel>::empty(),
    {
        TypeDefs { entries: Vec::new() }
    }

    /// Whether a definition is stored under `name`.
    pub fn contains(&self, name: &str) -> (r: bool)
        ensures
            r == self@.contains_key(name@),
    {
        let n = self.entries.len();
        let mut i: usize = 0;
        while i < n
            invariant
                n == self.entries@.len(),
                i <= n,
                forall|j: int| 0 <= j < i ==> (#[trigger] self.entries@[j].0@) != name@,
            decreases n - i,
        {
            if str_eq(self.entries[i].0.as_str(), name) {
                proof {
                    lemma_defs_map_contains(self.entries@, i as int);
                }
                return true;
            }
            i += 1;
        }
        proof {
            lemma_defs_map_absent(self.entries@, name@);
        }
        false
    }

    /// The definition stored under `name`, when there is one.
    pub fn get(&self, name: &str) -> (r: Option<&DataType>)
        requires
            self.wf(),
        ensures
            match r {
                Some(d) => self@.contains_key(name@) && d@ == self@[name@],
                None => !self@.contains_key(name@),
            },
    {
        let n = self.entries.len();
        let mut i: usize = 0;
        while i < n
            invariant
                n == self.entries@.len(),
                i <= n,
                self.wf(),
                forall|j: int| 0 <= j < i ==> (#[trigger] self.entries@[j].0@) != name@,
            decreases n - i,
        {
            if str_eq(self.entries[i].0.as_str(), name) {
                proof {
                    lemma_defs_map_contains(self.entries@, i as int);
                    lemma_defs_map_get(self.entries@, i as int);
                }
                return Some(&self.entries[i].1);
            }
            i += 1;
        }
        proof {
            lemma_defs_map_absent(self.entries@, name@);
        }
        None
    }

    /// Stores a definition under a name, unless the name already has
    /// one: the first stored definition always stays.
    pub fn declare(&mut self, name: String, def: DataType)
        requires
            old(self).wf(),
        ensures
            final(self).wf(),
            final(self)@ == if old(self)@.contains_key(name@) {
                old(self)@
            } else {
                old(self)@.insert(name@, def@)
            },
    {
        let ghost m0 = self@;
        if !self.contains(name.as_str()) {
            proof {
                assert forall|j: int|
                    0 <= j < self.entries@.len() implies (#[trigger] self.entries@[j].0@)
                    != name@ by {
                    lemma_defs_map_contains(self.entries@, j);
                }
            }
            let ghost before = self.entries@;
            self.entries.push((name, def));
            proof {
                assert(self.entries@.drop_last() =~= before);
            }
        }
    }

    /// Takes every definition of another registry in, keeping this
    /// registry's own definition wherever both registries name one
    /// type: a collision never overwrites what is already stored.
    #[verifier::loop_isolation(false)]
    pub fn merge_from(&mut self, other: TypeDefs)
        requires
            old(self).wf(),
        ensures
            final(self).wf(),
            final(self)@ == other@.union_prefer_right(old(self)@),
    {
        let ghost target = other@.union_prefer_right(old(self)@);
        let mut src = other.entries;
        while src.len() > 0
            invariant
                self.wf(),
                defs_map(src@).union_prefer_right(self@) == target,
            decreases src.len(),
        {
            let ghost pre = src@;
            let pair = src.pop().unwrap();
            proof {
                assert(src@ =~= pre.drop_last());
                assert(pair == pre.last());
            }
            let ghost before = self@;
            let ghost namev = pair.0@;
            let ghost defv = pair.1@;
            self.declare(pair.0, pair.1);
            proof {
                if before.contains_key(namev) {
                    assert(defs_map(src@).union_prefer_right(self@) =~= defs_map(
                        pre,
                    ).union_prefer_right(before));
                } else {
                    assert(defs_map(src@).union_prefer_right(self@) =~= defs_map(
                        pre,
                    ).union_prefer_right(before));
                }
            }
        }
        proof {
            assert(defs_map(src@) =~= Map::<Seq<char>, DataTypeModel>::empty());
            assert(defs_map(src@).union_prefer_right(self@) =~= self@);
        }
    }
}

/// Law: registration is idempotent. Declaring a name a second time,
/// with the same or any other definition, leaves the registry exactly
/// as the first declaration left it, and the stored definition is the
/// first one declared.
pub proof fn lemma_declare_idempotent(
    m: Map<Seq<char>, DataTypeModel>,
    name: Seq<char>,
    first: DataTypeModel,
    second: DataTypeModel,
)
    ensures
        declare_model(declare_model(m, name, first), name, second) == declare_model(
            m,
            name,
            first,
        ),
        !m.contains_key(name) ==> declare_model(m, name, first)[name] == first,
{
}

/// The registry state a declaration leaves behind: the first stored
/// definition always stays.
pub open spec fn declare_model(
    m: Map<Seq<char>, DataTypeModel>,
    name: Seq<char>,
    def: DataTypeModel,
) -> Map<Seq<char>, DataTypeModel> {
    if m.contains_key(name) {
        m
    } else {
        m.insert(name, def)
    }
}

} // verus!
