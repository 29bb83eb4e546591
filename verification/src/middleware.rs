//! The middleware pipeline: an ordered, immutable chain of request
//! transforms fixed at build time. At request time the chain is applied
//! in registration order, terminating in a resolver; any layer may
//! short-circuit with a response or an error, and then no later layer
//! and no resolver runs.

use vstd::prelude::*;
use vstd::string::StringExecFns;

use crate::errors::ExecError;
use crate::value::Value;
use crate::value::ValueModel;

verus! {

/// One middleware layer: a transform from (context, argument) to either
/// a short-circuit outcome or a forwarded (context, argument) pair.
pub enum Middleware {
    /// Forwards context and argument unchanged: the base of every chain.
    Pass,
    /// Appends its tag to a text argument; any other argument is
    /// forwarded unchanged. Makes the order layers run in observable.
    TagArg(String),
    /// Replaces the context with its text.
    SetCtx(String),
    /// Short-circuits with its text as the response.
    Respond(String),
    /// Short-circuits with the handler-failure error.
    Reject,
}

/// What one layer hands onward.
pub enum Step {
    /// Run the next layer (or the resolver) with this context and
    /// argument.
    Continue(Value, Value),
    /// Stop here with this outcome; no later layer and no resolver runs.
    Short(Result<Value, ExecError>),
}

/// The model of a [`Step`].
pub enum StepModel {
    Continue(ValueModel, ValueModel),
    Short(Result<ValueModel, ExecError>),
}

impl View for Step {
    type V = StepModel;

    open spec fn view(&self) -> StepModel {
        match self {
            Step::Continue(c, a) => StepModel::Continue(c@, a@),
            Step::Short(r) => StepModel::Short(
                match r {
                    Ok(v) => Ok(v@),
                    Err(e) => Err(*e),
                },
            ),
        }
    }
}

/// What one layer does with a context and an argument.
pub open spec fn mw_apply(m: Middleware, ctx: ValueModel, arg: ValueModel) -> StepModel {
    match m {
        Middleware::Pass => StepModel::Continue(ctx, arg),
        Middleware::TagArg(tag) => StepModel::Continue(
            ctx,
            match arg {
                ValueModel::Text(s) => ValueModel::Text(s + tag@),
                other => other,
            },
        ),
        Middleware::SetCtx(s) => StepModel::Continue(ValueModel::Text(s@), arg),
        Middleware::Respond(s) => StepModel::Short(Ok(ValueModel::Text(s@))),
        Middleware::Reject => StepModel::Short(Err(ExecError::ResolverErr)),
    }
}

impl Middleware {
    /// Applies this layer.
    pub fn apply(&self, ctx: Value, arg: Value) -> (s: Step)
        ensures
            s@ == mw_apply(*self, ctx@, arg@),
    {
        match self {
            Middleware::Pass => Step::Continue(ctx, arg),
            Middleware::TagArg(tag) => match arg {
                Value::Text(text) => {
                    let mut tagged = text;
                    tagged.append(tag.as_str());
                    Step::Continue(ctx, Value::Text(tagged))
                },
                other => Step::Continue(ctx, other),
            },
            Middleware::SetCtx(s) => Step::Continue(Value::Text(s.clone()), arg),
            Middleware::Respond(s) => Step::Short(Ok(Value::Text(s.clone()))),
            Middleware::Reject => Step::Short(Err(ExecError::ResolverErr)),
        }
    }
}

impl Clone for Middleware {
    /// A cloned layer is the layer itself.
    fn clone(&self) -> (r: Self)
        ensures
            r == *self,
    {
        match self {
            Middleware::Pass => Middleware::Pass,
            Middleware::TagArg(s) => Middleware::TagArg(s.clone()),
            Middleware::SetCtx(s) => Middleware::SetCtx(s.clone()),
            Middleware::Respond(s) => Middleware::Respond(s.clone()),
            Middleware::Reject => Middleware::Reject,
        }
    }
}

/// What a whole chain does: layers run left to right (registration
/// order) until one short-circuits or the chain is exhausted.
pub open spec fn chain_run(chain: Seq<Middleware>, ctx: ValueModel, arg: ValueModel) -> StepModel
    decreases chain.len(),
{
    if chain.len() == 0 {
        StepModel::Continue(ctx, arg)
    } else {
        match mw_apply(chain.first(), ctx, arg) {
            StepModel::Continue(c, a) => chain_run(chain.drop_first(), c, a),
            StepModel::Short(r) => StepModel::Short(r),
        }
    }
}

/// Runs a chain on a context and an argument.
#[verifier::loop_isolation(false)]
pub fn run_chain(layers: &Vec<Middleware>, ctx: Value, arg: Value) -> (s: Step)
    ensures
        s@ == chain_run(layers@, ctx@, arg@),
{
    let ghost c0 = ctx@;
    let ghost a0 = arg@;
    let n = layers.len();
    let mut cur_ctx = ctx;
    let mut cur_arg = arg;
    let mut i: usize = 0;
    proof {
        assert(layers@.subrange(0, n as int) =~= layers@);
    }
    while i < n
        invariant
            i <= n,
            chain_run(layers@, c0, a0) == chain_run(
                layers@.subrange(i as int, n as int),
                cur_ctx@,
                cur_arg@,
            ),
        decreases n - i,
    {
        let ghost sub = layers@.subrange(i as int, n as int);
        proof {
            assert(sub.first() == layers@[i as int]);
            assert(sub.drop_first() =~= layers@.subrange(i as int + 1, n as int));
        }
        match layers[i].apply(cur_ctx, cur_arg) {
            Step::Continue(c, a) => {
                cur_ctx = c;
                cur_arg = a;
            },
            Step::Short(r) => {
                return Step::Short(r);
            },
        }
        i += 1;
    }
    proof {
        assert(layers@.subrange(n as int, n as int) =~= Seq::<Middleware>::empty());
    }
    Step::Continue(cur_ctx, cur_arg)
}

/// Clones a chain layer for layer.
pub fn clone_layers(layers: &Vec<Middleware>) -> (r: Vec<Middleware>)
    ensures
        r@ == layers@,
{
    let r = layers.clone();
    proof {
        assert(r@ =~= layers@);
    }
    r
}

/// Law: a chain observes its layers in registration order. Running a
/// chain that starts with layer `m` applies `m` first; only when `m`
/// forwards does the rest of the chain see the request, and when `m`
/// short-circuits, the rest never runs.
pub proof fn lemma_chain_order(
    m: Middleware,
    rest: Seq<Middleware>,
    ctx: ValueModel,
    arg: ValueModel,
)
    ensures
        chain_run(seq![m] + rest, ctx, arg) == match mw_apply(m, ctx, arg) {
            StepModel::Continue(c, a) => chain_run(rest, c, a),
            StepModel::Short(r) => StepModel::Short(r),
        },
{
    let whole = seq![m] + rest;
    assert(whole.first() == m);
    assert(whole.drop_first() =~= rest);
}

/// Law: when an earlier part of a chain is followed by a later part,
/// the earlier part runs first, and the later part runs only on what
/// the earlier part forwarded; a short-circuit in the earlier part is
/// the outcome of the whole chain.
pub proof fn lemma_chain_append(
    c1: Seq<Middleware>,
    c2: Seq<Middleware>,
    ctx: ValueModel,
    arg: ValueModel,
)
    ensures
        chain_run(c1 + c2, ctx, arg) == match chain_run(c1, ctx, arg) {
            StepModel::Continue(c, a) => chain_run(c2, c, a),
            StepModel::Short(r) => StepModel::Short(r),
        },
    decreases c1.len(),
{
    if c1.len() == 0 {
        assert(c1 + c2 =~= c2);
    } else {
        let whole = c1 + c2;
        assert(whole.first() == c1.first());
        assert(whole.drop_first() =~= c1.drop_first() + c2);
        match mw_apply(c1.first(), ctx, arg) {
            StepModel::Continue(c, a) => {
                lemma_chain_append(c1.drop_first(), c2, c, a);
            },
            StepModel::Short(_) => {},
        }
    }
}

} // verus!
