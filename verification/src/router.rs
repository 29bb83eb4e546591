//! The router builder and the router.
//!
//! The builder registers procedures, composes middleware, merges
//! sub-routers and freezes everything into an immutable router; the
//! router looks a request's key up in the store of its kind, runs the
//! stored chain and produces a single pending result or an item
//! sequence. The router holds no per-request state: every request gets
//! its own context and argument.

use vstd::prelude::*;

use crate::errors::BuildError;
use crate::errors::ExecError;
use crate::middleware::chain_run;
use crate::middleware::clone_layers;
use crate::middleware::Middleware;
use crate::middleware::Step;
use crate::middleware::StepModel;
use crate::naming::is_valid_procedure_name;
use crate::naming::name_rejected;
use crate::registry::TypeDefs;
use crate::resolver::items_model;
use crate::resolver::res_arg_desc;
use crate::resolver::res_result_desc;
use crate::resolver::resolve_spec;
use crate::resolver::spec_typedef;
use crate::resolver::stream_arg_desc;
use crate::resolver::stream_result_desc;
use crate::resolver::stream_spec;
use crate::resolver::RequestResolver;
use crate::resolver::StreamResolver;
use crate::schema::DefsModel;
use crate::store::spec_merge;
use crate::store::store_contains;
use crate::store::store_lookup;
use crate::store::store_wf;
use crate::store::ProcModel;
use crate::store::ProcedureStore;
use crate::value::Value;
use crate::value::ValueModel;

verus! {

/// The kind of a procedure.
#[derive(Clone, Copy, Debug, PartialEq, Eq, Structural)]
pub enum ProcedureKind {
    Query,
    Mutation,
    Subscription,
}

/// Configuration shared by all procedures across merges. The export
/// path, when one is set, is where external tooling writes the
/// aggregated schema; the core never touches a file itself.
pub struct Config {
    pub bindings_export_path: Option<String>,
}

/// The model of a [`Config`].
pub open spec fn config_model(c: Config) -> Option<Seq<char>> {
    match c.bindings_export_path {
        Some(p) => Some(p@),
        None => None,
    }
}

impl Config {
    /// A configuration with no export path set.
    pub fn new() -> (r: Config)
        ensures
            config_model(r) is None,
    {
        Config { bindings_export_path: None }
    }
}

/// What a dispatch produces: a single value for a query or mutation, a
/// sequence of items for a subscription. Each item of a sequence
/// carries its own outcome: one bad item is delivered as an error in
/// place and never terminates the others.
#[derive(Debug, PartialEq)]
pub enum Response {
    Value(Value),
    Stream(Vec<Result<Value, ExecError>>),
}

/// The model of a [`Response`].
pub enum ResponseModel {
    Value(ValueModel),
    Stream(Seq<Result<ValueModel, ExecError>>),
}

impl View for Response {
    type V = ResponseModel;

    open spec fn view(&self) -> ResponseModel {
        match self {
            Response::Value(v) => ResponseModel::Value(v@),
            Response::Stream(items) => ResponseModel::Stream(items_model(items@)),
        }
    }
}

/// The model of a [`RouterBuilder`].
pub struct BuilderModel {
    pub config: Option<Seq<char>>,
    pub layers: Seq<Middleware>,
    pub queries: Seq<ProcModel<RequestResolver>>,
    pub mutations: Seq<ProcModel<RequestResolver>>,
    pub subscriptions: Seq<ProcModel<StreamResolver>>,
    pub defs: DefsModel,
}

/// Builds a router: registers procedures under validated keys, wraps
/// them in the middleware configured so far, merges sub-routers and
/// finally freezes the whole into a [`Router`]. Construction is
/// single-threaded; every error fails construction fast.
pub struct RouterBuilder {
    config: Config,
    layers: Vec<Middleware>,
    queries: ProcedureStore<RequestResolver>,
    mutations: ProcedureStore<RequestResolver>,
    subscriptions: ProcedureStore<StreamResolver>,
    typ_store: TypeDefs,
}

impl View for RouterBuilder {
    type V = BuilderModel;

    closed spec fn view(&self) -> BuilderModel {
        BuilderModel {
            config: config_model(self.config),
            layers: self.layers@,
            queries: self.queries@,
            mutations: self.mutations@,
            subscriptions: self.subscriptions@,
            defs: self.typ_store@,
        }
    }
}

/// The model of a [`Router`].
pub struct RouterModel {
    pub config: Option<Seq<char>>,
    pub queries: Seq<ProcModel<RequestResolver>>,
    pub mutations: Seq<ProcModel<RequestResolver>>,
    pub subscriptions: Seq<ProcModel<StreamResolver>>,
    pub defs: DefsModel,
}

/// The immutable dispatch engine a builder freezes into.
pub struct Router {
    config: Config,
    queries: ProcedureStore<RequestResolver>,
    mutations: ProcedureStore<RequestResolver>,
    subscriptions: ProcedureStore<StreamResolver>,
    typ_store: TypeDefs,
}

impl View for Router {
    type V = RouterModel;

    closed spec fn view(&self) -> RouterModel {
        RouterModel {
            config: config_model(self.config),
            queries: self.queries@,
            mutations: self.mutations@,
            subscriptions: self.subscriptions@,
            defs: self.typ_store@,
        }
    }
}

impl RouterBuilder {
    /// The stores and the registry are well formed.
    pub open spec fn wf(&self) -> bool {
        &&& store_wf(self@.queries)
        &&& store_wf(self@.mutations)
        &&& store_wf(self@.subscriptions)
        &&& self.defs_wf()
    }

    /// The registry invariant, named here so callers can carry it.
    pub closed spec fn defs_wf(&self) -> bool {
        self.typ_store.wf()
    }

    /// An empty builder: no middleware, no procedures, no types.
    pub fn new() -> (r: RouterBuilder)
        ensures
            r.wf(),
            r@.config is None,
            r@.layers == Seq::<Middleware>::empty(),
            r@.queries == Seq::<ProcModel<RequestResolver>>::empty(),
            r@.mutations == Seq::<ProcModel<RequestResolver>>::empty(),
            r@.subscriptions == Seq::<ProcModel<StreamResolver>>::empty(),
            r@.defs == Map::<Seq<char>, crate::schema::DataTypeModel>::empty(),
    {
        RouterBuilder {
            config: Config::new(),
            layers: Vec::new(),
            queries: ProcedureStore::new(),
            mutations: ProcedureStore::new(),
            subscriptions: ProcedureStore::new(),
            typ_store: TypeDefs::new(),
        }
    }

    /// Attaches a configuration; a second call overwrites the first.
    pub fn config(self, config: Config) -> (r: RouterBuilder)
        requires
            self.wf(),
        ensures
            r.wf(),
            r@ == (BuilderModel { config: config_model(config), ..self@ }),
    {
        let mut this = self;
        this.config = config;
        this
    }

    /// Appends one middleware layer: procedures registered from here
    /// on run it after every layer already configured.
    pub fn middleware(self, m: Middleware) -> (r: RouterBuilder)
        requires
            self.wf(),
        ensures
            r.wf(),
            r@ == (BuilderModel { layers: self@.layers.push(m), ..self@ }),
    {
        let mut this = self;
        this.layers.push(m);
        this
    }

    /// Registers a query under a key: captures the resolver's schema
    /// in the registry, wraps the resolver in the middleware configured
    /// so far, and stores the result.
    pub fn query(self, key: &str, resolver: RequestResolver) -> (r: Result<RouterBuilder, BuildError>)
        requires
            self.wf(),
        ensures
            r matches Err(BuildError::InvalidKey) <==> name_rejected(key@),
            r matches Err(BuildError::DuplicateKey) <==> (!name_rejected(key@) && store_contains(
                self@.queries,
                key@,
            )),
            r is Ok <==> (!name_rejected(key@) && !store_contains(self@.queries, key@)),
            r matches Ok(b) ==> b.wf() && b@ == (BuilderModel {
                queries: self@.queries.push(
                    ProcModel {
                        key: key@,
                        layers: self@.layers,
                        resolver,
                        ty: spec_typedef(
                            res_arg_desc(resolver),
                            res_result_desc(resolver),
                            self@.defs,
                        ).0,
                    },
                ),
                defs: spec_typedef(
                    res_arg_desc(resolver),
                    res_result_desc(resolver),
                    self@.defs,
                ).1,
                ..self@
            }),
    {
        let mut this = self;
        let ty = resolver.typedef(&mut this.typ_store);
        let layers = clone_layers(&this.layers);
        match this.queries.append(key.to_owned(), layers, resolver, ty) {
            Ok(()) => Ok(this),
            Err(e) => Err(e),
        }
    }

    /// Registers a mutation under a key, exactly as a query is.
    pub fn mutation(self, key: &str, resolver: RequestResolver) -> (r: Result<RouterBuilder, BuildError>)
        requires
            self.wf(),
        ensures
            r matches Err(BuildError::InvalidKey) <==> name_rejected(key@),
            r matches Err(BuildError::DuplicateKey) <==> (!name_rejected(key@) && store_contains(
                self@.mutations,
                key@,
            )),
            r is Ok <==> (!name_rejected(key@) && !store_contains(self@.mutations, key@)),
            r matches Ok(b) ==> b.wf() && b@ == (BuilderModel {
                mutations: self@.mutations.push(
                    ProcModel {
                        key: key@,
                        layers: self@.layers,
                        resolver,
                        ty: spec_typedef(
                            res_arg_desc(resolver),
                            res_result_desc(resolver),
                            self@.defs,
                        ).0,
                    },
                ),
                defs: spec_typedef(
                    res_arg_desc(resolver),
                    res_result_desc(resolver),
                    self@.defs,
                ).1,
                ..self@
            }),
    {
        let mut this = self;
        let ty = resolver.typedef(&mut this.typ_store);
        let layers = clone_layers(&this.layers);
        match this.mutations.append(key.to_owned(), layers, resolver, ty) {
            Ok(()) => Ok(this),
            Err(e) => Err(e),
        }
    }

    /// Registers a subscription under a key: the stream resolver is
    /// wrapped in the middleware configured so far, like the others.
    pub fn subscription(self, key: &str, resolver: StreamResolver) -> (r: Result<
        RouterBuilder,
        BuildError,
    >)
        requires
            self.wf(),
        ensures
            r matches Err(BuildError::InvalidKey) <==> name_rejected(key@),
            r matches Err(BuildError::DuplicateKey) <==> (!name_rejected(key@) && store_contains(
                self@.subscriptions,
                key@,
            )),
            r is Ok <==> (!name_rejected(key@) && !store_contains(self@.subscriptions, key@)),
            r matches Ok(b) ==> b.wf() && b@ == (BuilderModel {
                subscriptions: self@.subscriptions.push(
                    ProcModel {
                        key: key@,
                        layers: self@.layers,
                        resolver,
                        ty: spec_typedef(
                            stream_arg_desc(resolver),
                            stream_result_desc(resolver),
                            self@.defs,
                        ).0,
                    },
                ),
                defs: spec_typedef(
                    stream_arg_desc(resolver),
                    stream_result_desc(resolver),
                    self@.defs,
                ).1,
                ..self@
            }),
    {
        let mut this = self;
        let ty = resolver.typedef(&mut this.typ_store);
        let layers = clone_layers(&this.layers);
        match this.subscriptions.append(key.to_owned(), layers, resolver, ty) {
            Ok(()) => Ok(this),
            Err(e) => Err(e),
        }
    }

    /// Merges a sub-router in under a prefix: refuses a prefix that
    /// violates the naming contract; re-keys every sub-procedure as
    /// `prefix + key` with this router's chain in front of its own, so
    /// outer middleware cannot be bypassed; keeps this router's own
    /// entries untouched; unions the registries keeping what this
    /// router already stored; and lets procedures registered after the
    /// merge run both routers' chains in that order.
    pub fn merge(self, prefix: &str, other: RouterBuilder) -> (r: Result<
        RouterBuilder,
        BuildError,
    >)
        requires
            self.wf(),
            other.wf(),
        ensures
            r matches Err(BuildError::InvalidPrefix) <==> name_rejected(prefix@),
            r is Ok <==> (!name_rejected(prefix@) && spec_merge(
                self@.queries,
                other@.queries,
                prefix@,
                self@.layers,
            ) is Ok && spec_merge(
                self@.mutations,
                other@.mutations,
                prefix@,
                self@.layers,
            ) is Ok && spec_merge(
                self@.subscriptions,
                other@.subscriptions,
                prefix@,
                self@.layers,
            ) is Ok),
            r matches Ok(b) ==> b.wf() && b@.config == self@.config && b@.layers == self@.layers
                + other@.layers && spec_merge(
                self@.queries,
                other@.queries,
                prefix@,
                self@.layers,
            ) == Ok::<_, BuildError>(b@.queries) && spec_merge(
                self@.mutations,
                other@.mutations,
                prefix@,
                self@.layers,
            ) == Ok::<_, BuildError>(b@.mutations) && spec_merge(
                self@.subscriptions,
                other@.subscriptions,
                prefix@,
                self@.layers,
            ) == Ok::<_, BuildError>(b@.subscriptions) && b@.defs
                == other@.defs.union_prefer_right(self@.defs),
    {
        if is_valid_procedure_name(prefix) {
            return Err(BuildError::InvalidPrefix);
        }
        let mut this = self;
        let ghost other_model = other@;
        let RouterBuilder {
            config: _,
            layers: mut other_layers,
            queries: other_queries,
            mutations: other_mutations,
            subscriptions: other_subscriptions,
            typ_store: other_defs,
        } = other;
        proof {
            crate::store::lemma_merge_err_kind(
                this@.queries,
                other_model.queries,
                prefix@,
                this@.layers,
            );
            crate::store::lemma_merge_err_kind(
                this@.mutations,
                other_model.mutations,
                prefix@,
                this@.layers,
            );
            crate::store::lemma_merge_err_kind(
                this@.subscriptions,
                other_model.subscriptions,
                prefix@,
                this@.layers,
            );
        }
        match this.queries.merge_from(other_queries, prefix, &this.layers) {
            Ok(()) => {},
            Err(e) => {
                return Err(e);
            },
        }
        match this.mutations.merge_from(other_mutations, prefix, &this.layers) {
            Ok(()) => {},
            Err(e) => {
                return Err(e);
            },
        }
        match this.subscriptions.merge_from(other_subscriptions, prefix, &this.layers) {
            Ok(()) => {},
            Err(e) => {
                return Err(e);
            },
        }
        this.typ_store.merge_from(other_defs);
        this.layers.append(&mut other_layers);
        Ok(this)
    }

    /// Consumes the builder and freezes stores and registry into an
    /// immutable router.
    pub fn build(self) -> (r: Router)
        requires
            self.wf(),
        ensures
            r.wf(),
            r@ == (RouterModel {
                config: self@.config,
                queries: self@.queries,
                mutations: self@.mutations,
                subscriptions: self@.subscriptions,
                defs: self@.defs,
            }),
    {
        let RouterBuilder { config, layers: _, queries, mutations, subscriptions, typ_store } =
            self;
        Router { config, queries, mutations, subscriptions, typ_store }
    }
}

/// What one request procedure returns: the chain runs first and its
/// short-circuit, if any, is the outcome; otherwise the resolver runs
/// on what the chain forwarded.
pub open spec fn spec_request_run(
    p: ProcModel<RequestResolver>,
    ctx: ValueModel,
    arg: ValueModel,
) -> Result<ValueModel, ExecError> {
    match chain_run(p.layers, ctx, arg) {
        StepModel::Continue(c, a) => resolve_spec(p.resolver, c, a),
        StepModel::Short(r) => r,
    }
}

/// What one subscription returns: a chain short-circuit becomes a
/// single value response; otherwise the stream resolver's items.
pub open spec fn spec_subscription_run(
    p: ProcModel<StreamResolver>,
    ctx: ValueModel,
    arg: ValueModel,
) -> Result<ResponseModel, ExecError> {
    match chain_run(p.layers, ctx, arg) {
        StepModel::Continue(c, a) => match stream_spec(p.resolver, c, a) {
            Ok(items) => Ok(ResponseModel::Stream(items)),
            Err(e) => Err(e),
        },
        StepModel::Short(r) => match r {
            Ok(v) => Ok(ResponseModel::Value(v)),
            Err(e) => Err(e),
        },
    }
}

/// What a dispatch returns, for every kind, key, context and argument:
/// the not-found error exactly when the kind's store has no entry under
/// the key, and otherwise that entry's outcome.
pub open spec fn spec_execute(
    r: RouterModel,
    kind: ProcedureKind,
    key: Seq<char>,
    ctx: ValueModel,
    arg: ValueModel,
) -> Result<ResponseModel, ExecError> {
    match kind {
        ProcedureKind::Query => match store_lookup(r.queries, key) {
            None => Err(ExecError::ProcedureNotFoundErr),
            Some(p) => match spec_request_run(p, ctx, arg) {
                Ok(v) => Ok(ResponseModel::Value(v)),
                Err(e) => Err(e),
            },
        },
        ProcedureKind::Mutation => match store_lookup(r.mutations, key) {
            None => Err(ExecError::ProcedureNotFoundErr),
            Some(p) => match spec_request_run(p, ctx, arg) {
                Ok(v) => Ok(ResponseModel::Value(v)),
                Err(e) => Err(e),
            },
        },
        ProcedureKind::Subscription => match store_lookup(r.subscriptions, key) {
            None => Err(ExecError::ProcedureNotFoundErr),
            Some(p) => spec_subscription_run(p, ctx, arg),
        },
    }
}

impl Router {
    /// The stores and the registry are well formed.
    pub open spec fn wf(&self) -> bool {
        &&& store_wf(self@.queries)
        &&& store_wf(self@.mutations)
        &&& store_wf(self@.subscriptions)
        &&& self.defs_wf()
    }

    /// The registry invariant, named here so callers can carry it.
    pub closed spec fn defs_wf(&self) -> bool {
        self.typ_store.wf()
    }

    /// A fresh builder; the router itself is made by `build`.
    pub fn new() -> (r: RouterBuilder)
        ensures
            r.wf(),
            r@.config is None,
            r@.layers == Seq::<Middleware>::empty(),
            r@.queries == Seq::<ProcModel<RequestResolver>>::empty(),
            r@.mutations == Seq::<ProcModel<RequestResolver>>::empty(),
            r@.subscriptions == Seq::<ProcModel<StreamResolver>>::empty(),
            r@.defs == Map::<Seq<char>, crate::schema::DataTypeModel>::empty(),
    {
        RouterBuilder::new()
    }

    /// The consolidated type registry, for schema export.
    pub fn types(&self) -> (r: &TypeDefs)
        ensures
            r@ == self@.defs,
    {
        &self.typ_store
    }

    /// Dispatches one request: looks the key up in the store of the
    /// given kind, runs the stored chain on the caller's context and
    /// argument, and produces the single result or the item sequence.
    pub fn execute(&self, kind: ProcedureKind, key: &str, ctx: Value, arg: Value) -> (r: Result<
        Response,
        ExecError,
    >)
        ensures
            match r {
                Ok(resp) => spec_execute(self@, kind, key@, ctx@, arg@) == Ok::<_, ExecError>(
                    resp@,
                ),
                Err(e) => spec_execute(self@, kind, key@, ctx@, arg@) == Err::<ResponseModel, _>(
                    e,
                ),
            },
    {
        match kind {
            ProcedureKind::Query => match self.queries.lookup(key) {
                None => Err(ExecError::ProcedureNotFoundErr),
                Some(p) => match crate::middleware::run_chain(&p.layers, ctx, arg) {
                    Step::Continue(c, a) => match p.resolver.resolve(c, a) {
                        Ok(v) => Ok(Response::Value(v)),
                        Err(e) => Err(e),
                    },
                    Step::Short(out) => match out {
                        Ok(v) => Ok(Response::Value(v)),
                        Err(e) => Err(e),
                    },
                },
            },
            ProcedureKind::Mutation => match self.mutations.lookup(key) {
                None => Err(ExecError::ProcedureNotFoundErr),
                Some(p) => match crate::middleware::run_chain(&p.layers, ctx, arg) {
                    Step::Continue(c, a) => match p.resolver.resolve(c, a) {
                        Ok(v) => Ok(Response::Value(v)),
                        Err(e) => Err(e),
                    },
                    Step::Short(out) => match out {
                        Ok(v) => Ok(Response::Value(v)),
                        Err(e) => Err(e),
                    },
                },
            },
            ProcedureKind::Subscription => match self.subscriptions.lookup(key) {
                None => Err(ExecError::ProcedureNotFoundErr),
                Some(p) => match crate::middleware::run_chain(&p.layers, ctx, arg) {
                    Step::Continue(c, a) => match p.resolver.resolve(c, a) {
                        Ok(items) => Ok(Response::Stream(items)),
                        Err(e) => Err(e),
                    },
                    Step::Short(out) => match out {
                        Ok(v) => Ok(Response::Value(v)),
                        Err(e) => Err(e),
                    },
                },
            },
        }
    }
}

/// Law: a merged procedure's chain is the outer router's chain followed
/// by its own. The outer part observes the request first; only what it
/// forwards reaches the inner part and the resolver, and an outer
/// short-circuit is the whole outcome.
pub proof fn lemma_outer_runs_first(
    p: ProcModel<RequestResolver>,
    outer: Seq<Middleware>,
    inner: Seq<Middleware>,
    ctx: ValueModel,
    arg: ValueModel,
)
    requires
        p.layers == outer + inner,
    ensures
        spec_request_run(p, ctx, arg) == match chain_run(outer, ctx, arg) {
            StepModel::Continue(c, a) => spec_request_run(
                (ProcModel { key: p.key, layers: inner, resolver: p.resolver, ty: p.ty }),
                c,
                a,
            ),
            StepModel::Short(r) => r,
        },
{
    crate::middleware::lemma_chain_append(outer, inner, ctx, arg);
}

/// Law: once a layer short-circuits, the resolver never runs. Two
/// procedures with the same chain have the same outcome whenever that
/// chain short-circuits, whatever their resolvers.
pub proof fn lemma_short_circuit_skips_resolver(
    p: ProcModel<RequestResolver>,
    q: ProcModel<RequestResolver>,
    ctx: ValueModel,
    arg: ValueModel,
)
    requires
        p.layers == q.layers,
        chain_run(p.layers, ctx, arg) is Short,
    ensures
        spec_request_run(p, ctx, arg) == spec_request_run(q, ctx, arg),
{
}

} // verus!
