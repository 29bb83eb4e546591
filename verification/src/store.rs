//! The procedure store: a per-kind mapping from validated key to the
//! procedure's chain, resolver and schema. Every insertion enforces the
//! naming contract and refuses a duplicate key; merging re-keys a
//! sub-router's procedures under a prefix and puts the outer chain in
//! front of each inner chain, so outer middleware always observes a
//! request first.

use vstd::prelude::*;
use vstd::string::StringExecFns;

use crate::errors::BuildError;
use crate::middleware::clone_layers;
use crate::middleware::Middleware;
use crate::naming::is_valid_procedure_name;
use crate::naming::name_rejected;
use crate::naming::str_eq;
use crate::resolver::ProcedureDataType;
use crate::resolver::ProcedureDataTypeModel;

verus! {

/// One registered procedure: key, middleware chain, resolver, schema.
pub struct Procedure<R> {
    pub key: String,
    pub layers: Vec<Middleware>,
    pub resolver: R,
    pub ty: ProcedureDataType,
}

/// The model of a [`Procedure`].
pub struct ProcModel<R> {
    pub key: Seq<char>,
    pub layers: Seq<Middleware>,
    pub resolver: R,
    pub ty: ProcedureDataTypeModel,
}

impl<R> View for Procedure<R> {
    type V = ProcModel<R>;

    open spec fn view(&self) -> ProcModel<R> {
        ProcModel {
            key: self.key@,
            layers: self.layers@,
            resolver: self.resolver,
            ty: self.ty@,
        }
    }
}

/// Model of a list of procedures, entry by entry.
pub open spec fn procs_model<R>(s: Seq<Procedure<R>>) -> Seq<ProcModel<R>> {
    Seq::new(s.len(), |i: int| s[i]@)
}

/// Whether some entry carries this key.
pub open spec fn store_contains<R>(s: Seq<ProcModel<R>>, k: Seq<char>) -> bool {
    exists|i: int| 0 <= i < s.len() && (#[trigger] s[i]).key == k
}

/// The first entry carrying this key.
pub open spec fn store_lookup<R>(s: Seq<ProcModel<R>>, k: Seq<char>) -> Option<ProcModel<R>>
    decreases s.len(),
{
    if s.len() == 0 {
        None
    } else if s.first().key == k {
        Some(s.first())
    } else {
        store_lookup(s.drop_first(), k)
    }
}

/// Every key is usable and no two entries share one.
pub open spec fn store_wf<R>(s: Seq<ProcModel<R>>) -> bool {
    &&& forall|i: int| 0 <= i < s.len() ==> !name_rejected((#[trigger] s[i]).key)
    &&& forall|i: int, j: int|
        0 <= i < s.len() && 0 <= j < s.len() && i != j ==> (#[trigger] s[i]).key != (
        #[trigger] s[j]).key
}

/// A scan that stops at the first match agrees with `store_lookup`.
pub proof fn lemma_store_lookup_found<R>(s: Seq<ProcModel<R>>, k: Seq<char>, i: int)
    requires
        0 <= i < s.len(),
        s[i].key == k,
        forall|j: int| 0 <= j < i ==> (#[trigger] s[j]).key != k,
    ensures
        store_lookup(s, k) == Some(s[i]),
    decreases s.len(),
{
    if i == 0 {
    } else {
        assert(s.first().key != k);
        assert forall|j: int| 0 <= j < i - 1 implies (#[trigger] s.drop_first()[j]).key != k by {
            assert(s.drop_first()[j] == s[j + 1]);
        }
        assert(s.drop_first()[i - 1] == s[i]);
        lemma_store_lookup_found(s.drop_first(), k, i - 1);
    }
}

/// A scan that matches nothing agrees with `store_lookup`.
pub proof fn lemma_store_lookup_none<R>(s: Seq<ProcModel<R>>, k: Seq<char>)
    requires
        forall|j: int| 0 <= j < s.len() ==> (#[trigger] s[j]).key != k,
    ensures
        store_lookup(s, k) is None,
    decreases s.len(),
{
    if s.len() > 0 {
        assert forall|j: int|
            0 <= j < s.drop_first().len() implies (#[trigger] s.drop_first()[j]).key != k by {
            assert(s.drop_first()[j] == s[j + 1]);
        }
        lemma_store_lookup_none(s.drop_first(), k);
    }
}

/// What merging brings into a store, entry by entry of the source: the
/// re-keyed entry `prefix + key` with the outer chain put in front of
/// the inner chain; the first violation of the naming contract or
/// duplicate key fails the merge.
pub open spec fn spec_merge<R>(
    dst: Seq<ProcModel<R>>,
    src: Seq<ProcModel<R>>,
    prefix: Seq<char>,
    outer: Seq<Middleware>,
) -> Result<Seq<ProcModel<R>>, BuildError>
    decreases src.len(),
{
    if src.len() == 0 {
        Ok(dst)
    } else {
        let e = src.first();
        let k = prefix + e.key;
        if name_rejected(k) {
            Err(BuildError::InvalidKey)
        } else if store_contains(dst, k) {
            Err(BuildError::DuplicateKey)
        } else {
            spec_merge(
                dst.push(
                    ProcModel {
                        key: k,
                        layers: outer + e.layers,
                        resolver: e.resolver,
                        ty: e.ty,
                    },
                ),
                src.drop_first(),
                prefix,
                outer,
            )
        }
    }
}

/// Law: a merge that goes through leaves the outer store's own entries
/// untouched, at their places, and exposes each sub-entry under
/// `prefix + key` with the outer chain followed by its own chain and
/// its resolver and schema unchanged.
pub proof fn lemma_merge_shape<R>(
    dst: Seq<ProcModel<R>>,
    src: Seq<ProcModel<R>>,
    prefix: Seq<char>,
    outer: Seq<Middleware>,
)
    ensures
        spec_merge(dst, src, prefix, outer) matches Ok(res) ==> {
            &&& res.len() == dst.len() + src.len()
            &&& forall|i: int| 0 <= i < dst.len() ==> res[i] == dst[i]
            &&& forall|i: int|
                0 <= i < src.len() ==> res[dst.len() + i] == (ProcModel {
                    key: prefix + (#[trigger] src[i]).key,
                    layers: outer + src[i].layers,
                    resolver: src[i].resolver,
                    ty: src[i].ty,
                })
        },
    decreases src.len(),
{
    if src.len() > 0 {
        let e = src.first();
        let k = prefix + e.key;
        if !name_rejected(k) && !store_contains(dst, k) {
            let dst1 = dst.push(
                ProcModel { key: k, layers: outer + e.layers, resolver: e.resolver, ty: e.ty },
            );
            lemma_merge_shape(dst1, src.drop_first(), prefix, outer);
            if spec_merge(dst, src, prefix, outer) is Ok {
                let res = spec_merge(dst, src, prefix, outer)->Ok_0;
                assert forall|i: int|
                    0 <= i < src.len() implies res[dst.len() + i] == (ProcModel {
                        key: prefix + (#[trigger] src[i]).key,
                        layers: outer + src[i].layers,
                        resolver: src[i].resolver,
                        ty: src[i].ty,
                    }) by {
                    if i == 0 {
                        assert(res[dst.len() as int] == dst1[dst.len() as int]);
                    } else {
                        assert(src.drop_first()[i - 1] == src[i]);
                        assert(res[dst1.len() + (i - 1)] == res[dst.len() + i]);
                    }
                }
            }
        }
    }
}

/// A failed merge always names the key trouble: an invalid or a
/// duplicate re-keyed entry, never anything else.
pub proof fn lemma_merge_err_kind<R>(
    dst: Seq<ProcModel<R>>,
    src: Seq<ProcModel<R>>,
    prefix: Seq<char>,
    outer: Seq<Middleware>,
)
    ensures
        spec_merge(dst, src, prefix, outer) matches Err(e) ==> (e == BuildError::InvalidKey || e
            == BuildError::DuplicateKey),
    decreases src.len(),
{
    if src.len() > 0 {
        let e = src.first();
        let k = prefix + e.key;
        if !name_rejected(k) && !store_contains(dst, k) {
            lemma_merge_err_kind(
                dst.push(
                    ProcModel { key: k, layers: outer + e.layers, resolver: e.resolver, ty: e.ty },
                ),
                src.drop_first(),
                prefix,
                outer,
            );
        }
    }
}

/// A per-kind store of procedures.
pub struct ProcedureStore<R> {
    entries: Vec<Procedure<R>>,
}

impl<R> View for ProcedureStore<R> {
    type V = Seq<ProcModel<R>>;

    closed spec fn view(&self) -> Seq<ProcModel<R>> {
        procs_model(self.entries@)
    }
}

impl<R> ProcedureStore<R> {
    /// An empty store.
    pub fn new() -> (r: ProcedureStore<R>)
        ensures
            r@ == Seq::<ProcModel<R>>::empty(),
            store_wf(r@),
    {
        let r = ProcedureStore { entries: Vec::new() };
        proof {
            assert(r@ =~= Seq::<ProcModel<R>>::empty());
        }
        r
    }

    /// Whether a procedure is registered under this key.
    pub fn contains_key(&self, key: &str) -> (r: bool)
        ensures
            r == store_contains(self@, key@),
    {
        let n = self.entries.len();
        let mut i: usize = 0;
        while i < n
            invariant
                i <= n,
                n == self.entries@.len(),
                forall|j: int| 0 <= j < i ==> (#[trigger] self@[j]).key != key@,
            decreases n - i,
        {
            if str_eq(self.entries[i].key.as_str(), key) {
                assert(self@[i as int].key == key@);
                return true;
            }
            i += 1;
        }
        false
    }

    /// The procedure registered under this key, when there is one.
    pub fn lookup(&self, key: &str) -> (r: Option<&Procedure<R>>)
        ensures
            match r {
                Some(p) => store_lookup(self@, key@) == Some(p@),
                None => store_lookup(self@, key@) is None,
            },
    {
        let n = self.entries.len();
        let mut i: usize = 0;
        while i < n
            invariant
                i <= n,
                n == self.entries@.len(),
                forall|j: int| 0 <= j < i ==> (#[trigger] self@[j]).key != key@,
            decreases n - i,
        {
            if str_eq(self.entries[i].key.as_str(), key) {
                proof {
                    lemma_store_lookup_found(self@, key@, i as int);
                }
                return Some(&self.entries[i]);
            }
            i += 1;
        }
        proof {
            lemma_store_lookup_none(self@, key@);
        }
        None
    }

    /// Registers a procedure: refuses a key violating the naming
    /// contract and a key already taken, and otherwise appends.
    pub fn append(
        &mut self,
        key: String,
        layers: Vec<Middleware>,
        resolver: R,
        ty: ProcedureDataType,
    ) -> (r: Result<(), BuildError>)
        requires
            store_wf(old(self)@),
        ensures
            store_wf(final(self)@),
            r matches Err(BuildError::InvalidKey) <==> name_rejected(key@),
            r matches Err(BuildError::DuplicateKey) <==> (!name_rejected(key@) && store_contains(
                old(self)@,
                key@,
            )),
            r is Err ==> final(self)@ == old(self)@,
            r is Ok <==> (!name_rejected(key@) && !store_contains(old(self)@, key@)),
            r is Ok ==> final(self)@ == old(self)@.push(
                ProcModel { key: key@, layers: layers@, resolver, ty: ty@ },
            ),
    {
        if is_valid_procedure_name(key.as_str()) {
            return Err(BuildError::InvalidKey);
        }
        if self.contains_key(key.as_str()) {
            return Err(BuildError::DuplicateKey);
        }
        let ghost before = self@;
        let ghost keyv = key@;
        self.entries.push(Procedure { key, layers, resolver, ty });
        proof {
            assert(self@ =~= before.push(
                ProcModel { key: keyv, layers: layers@, resolver, ty: ty@ },
            ));
            assert forall|i: int, j: int|
                0 <= i < self@.len() && 0 <= j < self@.len() && i != j implies (
            #[trigger] self@[i]).key != (#[trigger] self@[j]).key by {
                if i < self@.len() - 1 && j < self@.len() - 1 {
                    assert(self@[i] == before[i]);
                    assert(self@[j] == before[j]);
                }
            }
        }
        Ok(())
    }

    /// Brings a sub-router's store in under a prefix, re-keying each
    /// entry and putting the outer chain in front of its chain. The
    /// first entry that violates the naming contract or collides fails
    /// the merge.
    #[verifier::loop_isolation(false)]
    pub fn merge_from(
        &mut self,
        other: ProcedureStore<R>,
        prefix: &str,
        outer: &Vec<Middleware>,
    ) -> (r: Result<(), BuildError>)
        requires
            store_wf(old(self)@),
        ensures
            store_wf(final(self)@),
            match r {
                Ok(()) => spec_merge(old(self)@, other@, prefix@, outer@) == Ok::<
                    _,
                    BuildError,
                >(final(self)@),
                Err(e) => spec_merge(old(self)@, other@, prefix@, outer@) == Err::<
                    Seq<ProcModel<R>>,
                    _,
                >(e),
            },
    {
        let ghost dst0 = self@;
        let ghost src0 = other@;
        let mut src = other.entries;
        proof {
            assert(procs_model(src@) =~= src0);
        }
        while src.len() > 0
            invariant
                store_wf(self@),
                spec_merge(self@, procs_model(src@), prefix@, outer@) == spec_merge(
                    dst0,
                    src0,
                    prefix@,
                    outer@,
                ),
            decreases src.len(),
        {
            let ghost src_pre = procs_model(src@);
            let e = src.remove(0);
            proof {
                assert(procs_model(src@) =~= src_pre.drop_first());
                assert(e@ == src_pre.first());
            }
            let ghost e0 = e@;
            let mut e = e;
            let mut k = prefix.to_owned();
            k.append(e.key.as_str());
            let mut layers = clone_layers(outer);
            layers.append(&mut e.layers);
            match self.append(k, layers, e.resolver, e.ty) {
                Ok(()) => {},
                Err(err) => {
                    return Err(err);
                },
            }
        }
        proof {
            assert(procs_model(src@) =~= Seq::<ProcModel<R>>::empty());
        }
        Ok(())
    }
}

} // verus!
