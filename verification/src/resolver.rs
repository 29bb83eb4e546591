//! The resolver adapter: normalizes a handler into one execution
//! contract. A request resolver takes a decoded argument and yields one
//! result; a stream resolver decodes the raw argument itself and yields
//! a sequence of items, each item carrying its own outcome, so one bad
//! item never fails the others (an item failure is delivered in place
//! and the stream continues).
//!
//! Every resolver validates the raw argument against its declared
//! argument schema; a non-conforming argument fails the call with the
//! decoding error. The handlers here ignore the request context; the
//! chain may still rewrite it for layers that read it.

use vstd::prelude::*;
use vstd::string::StringExecFns;

use crate::errors::ExecError;
use crate::registry::TypeDefs;
use crate::schema::conforms;
use crate::schema::spec_conforms;
use crate::schema::spec_inline;
use crate::schema::spec_reference;
use crate::schema::reference;
use crate::schema::DataType;
use crate::schema::DataTypeModel;
use crate::schema::DefsModel;
use crate::schema::PrimitiveType;
use crate::schema::TypeDesc;
use crate::schema::TypeDescModel;
use crate::value::Value;
use crate::value::ValueModel;

verus! {

/// The four schema views kept for one procedure: a compact reference
/// and a fully inlined form, for the argument and for the result.
pub struct ProcedureDataType {
    pub arg_ty: DataType,
    pub result_ty: DataType,
    pub inline_arg_ty: DataType,
    pub inline_result_ty: DataType,
}

/// The model of a [`ProcedureDataType`].
pub struct ProcedureDataTypeModel {
    pub arg_ty: DataTypeModel,
    pub result_ty: DataTypeModel,
    pub inline_arg_ty: DataTypeModel,
    pub inline_result_ty: DataTypeModel,
}

impl View for ProcedureDataType {
    type V = ProcedureDataTypeModel;

    open spec fn view(&self) -> ProcedureDataTypeModel {
        ProcedureDataTypeModel {
            arg_ty: self.arg_ty@,
            result_ty: self.result_ty@,
            inline_arg_ty: self.inline_arg_ty@,
            inline_result_ty: self.inline_result_ty@,
        }
    }
}

/// What `typedef` computes from an argument and a result descriptor,
/// and how it grows the registry: references first, then the inlined
/// forms with the immediate fields expanded.
pub open spec fn spec_typedef(arg_d: TypeDescModel, res_d: TypeDescModel, m: DefsModel) -> (
    ProcedureDataTypeModel,
    DefsModel,
) {
    let r1 = spec_reference(arg_d, m);
    let r2 = spec_reference(res_d, r1.1);
    let r3 = spec_inline(arg_d, true, r2.1);
    let r4 = spec_inline(res_d, true, r3.1);
    (
        ProcedureDataTypeModel {
            arg_ty: r1.0,
            result_ty: r2.0,
            inline_arg_ty: r3.0,
            inline_result_ty: r4.0,
        },
        r4.1,
    )
}

/// Captures the four schema views of a procedure, registering every
/// named type met along the way exactly once.
pub fn typedef(arg_d: &TypeDesc, res_d: &TypeDesc, defs: &mut TypeDefs) -> (t: ProcedureDataType)
    requires
        old(defs).wf(),
    ensures
        final(defs).wf(),
        t@ == spec_typedef(arg_d@, res_d@, old(defs)@).0,
        final(defs)@ == spec_typedef(arg_d@, res_d@, old(defs)@).1,
{
    let arg_ty = reference(arg_d, defs);
    let result_ty = reference(res_d, defs);
    let inline_arg_ty = crate::schema::inline(arg_d, true, defs);
    let inline_result_ty = crate::schema::inline(res_d, true, defs);
    ProcedureDataType { arg_ty, result_ty, inline_arg_ty, inline_result_ty }
}

/// A request handler in its normalized form.
pub enum RequestResolver {
    /// Takes a string and returns its prefix followed by the argument:
    /// plain string concatenation.
    Concat { prefix: String },
    /// Takes a number and returns its negation; negating the one number
    /// without a representable negation is the handler's own failure.
    Negate,
    /// Returns the argument unchanged, for any argument conforming to
    /// the declared descriptor.
    Echo(TypeDesc),
    /// Fails every call with the handler-failure error, after decoding
    /// an argument conforming to the declared descriptor.
    Fail(TypeDesc),
}

/// The argument descriptor a request resolver declares.
pub open spec fn res_arg_desc(r: RequestResolver) -> TypeDescModel {
    match r {
        RequestResolver::Concat { .. } => TypeDescModel::Primitive(PrimitiveType::Str),
        RequestResolver::Negate => TypeDescModel::Primitive(PrimitiveType::I64),
        RequestResolver::Echo(d) => d@,
        RequestResolver::Fail(d) => d@,
    }
}

/// The result descriptor a request resolver declares.
pub open spec fn res_result_desc(r: RequestResolver) -> TypeDescModel {
    match r {
        RequestResolver::Concat { .. } => TypeDescModel::Primitive(PrimitiveType::Str),
        RequestResolver::Negate => TypeDescModel::Primitive(PrimitiveType::I64),
        RequestResolver::Echo(d) => d@,
        RequestResolver::Fail(d) => d@,
    }
}

/// The model of a request outcome.
pub open spec fn outcome_model(r: Result<Value, ExecError>) -> Result<ValueModel, ExecError> {
    match r {
        Ok(v) => Ok(v@),
        Err(e) => Err(e),
    }
}

/// What a request resolver returns for every context and argument: the
/// decoding error exactly when the argument does not conform to the
/// declared argument schema, and otherwise the handler's result.
pub open spec fn resolve_spec(r: RequestResolver, ctx: ValueModel, arg: ValueModel) -> Result<
    ValueModel,
    ExecError,
> {
    if !spec_conforms(arg, res_arg_desc(r)) {
        Err(ExecError::DeserializingArgErr)
    } else {
        match r {
            RequestResolver::Concat { prefix } => match arg {
                ValueModel::Text(s) => Ok(ValueModel::Text(prefix@ + s)),
                _ => Err(ExecError::DeserializingArgErr),
            },
            RequestResolver::Negate => match arg {
                ValueModel::Num(n) => if n == i64::MIN {
                    Err(ExecError::ResolverErr)
                } else {
                    Ok(ValueModel::Num((-n) as i64))
                },
                _ => Err(ExecError::DeserializingArgErr),
            },
            RequestResolver::Echo(_) => Ok(arg),
            RequestResolver::Fail(_) => Err(ExecError::ResolverErr),
        }
    }
}

impl RequestResolver {
    /// Decodes the argument against the declared schema and runs the
    /// handler.
    pub fn resolve(&self, ctx: Value, arg: Value) -> (r: Result<Value, ExecError>)
        ensures
            outcome_model(r) == resolve_spec(*self, ctx@, arg@),
    {
        match self {
            RequestResolver::Concat { prefix } => {
                let d = TypeDesc::Primitive(PrimitiveType::Str);
                if !conforms(&arg, &d) {
                    return Err(ExecError::DeserializingArgErr);
                }
                match arg {
                    Value::Text(s) => {
                        let mut out = prefix.clone();
                        out.append(s.as_str());
                        Ok(Value::Text(out))
                    },
                    _ => Err(ExecError::DeserializingArgErr),
                }
            },
            RequestResolver::Negate => {
                let d = TypeDesc::Primitive(PrimitiveType::I64);
                if !conforms(&arg, &d) {
                    return Err(ExecError::DeserializingArgErr);
                }
                match arg {
                    Value::Num(n) => if n == i64::MIN {
                        Err(ExecError::ResolverErr)
                    } else {
                        Ok(Value::Num(-n))
                    },
                    _ => Err(ExecError::DeserializingArgErr),
                }
            },
            RequestResolver::Echo(d) => {
                if !conforms(&arg, d) {
                    return Err(ExecError::DeserializingArgErr);
                }
                Ok(arg)
            },
            RequestResolver::Fail(d) => {
                if !conforms(&arg, d) {
                    return Err(ExecError::DeserializingArgErr);
                }
                Err(ExecError::ResolverErr)
            },
        }
    }

    /// Captures this resolver's schema views in the registry.
    pub fn typedef(&self, defs: &mut TypeDefs) -> (t: ProcedureDataType)
        requires
            old(defs).wf(),
        ensures
            final(defs).wf(),
            t@ == spec_typedef(res_arg_desc(*self), res_result_desc(*self), old(defs)@).0,
            final(defs)@ == spec_typedef(res_arg_desc(*self), res_result_desc(*self), old(defs)@).1,
    {
        match self {
            RequestResolver::Concat { .. } => {
                let d = TypeDesc::Primitive(PrimitiveType::Str);
                typedef(&d, &d, defs)
            },
            RequestResolver::Negate => {
                let d = TypeDesc::Primitive(PrimitiveType::I64);
                typedef(&d, &d, defs)
            },
            RequestResolver::Echo(d) => typedef(d, d, defs),
            RequestResolver::Fail(d) => typedef(d, d, defs),
        }
    }
}

/// A subscription handler in its normalized form.
pub enum StreamResolver {
    /// Takes a number `k` and emits the numbers `0` to `k - 1` in
    /// order; a non-positive `k` emits nothing.
    CountTo,
    /// Takes a number `t` and emits its word `t` times; a non-positive
    /// `t` emits nothing.
    Repeat { word: String },
}

/// The argument descriptor a stream resolver declares.
pub open spec fn stream_arg_desc(r: StreamResolver) -> TypeDescModel {
    match r {
        StreamResolver::CountTo => TypeDescModel::Primitive(PrimitiveType::I64),
        StreamResolver::Repeat { .. } => TypeDescModel::Primitive(PrimitiveType::I64),
    }
}

/// The item descriptor a stream resolver declares.
pub open spec fn stream_result_desc(r: StreamResolver) -> TypeDescModel {
    match r {
        StreamResolver::CountTo => TypeDescModel::Primitive(PrimitiveType::I64),
        StreamResolver::Repeat { .. } => TypeDescModel::Primitive(PrimitiveType::Str),
    }
}

/// The model of a produced item sequence, item by item.
pub open spec fn items_model(s: Seq<Result<Value, ExecError>>) -> Seq<
    Result<ValueModel, ExecError>,
> {
    Seq::new(
        s.len(),
        |i: int|
            match s[i] {
                Ok(v) => Ok(v@),
                Err(e) => Err(e),
            },
    )
}

/// What a stream resolver produces for every context and argument: the
/// decoding error exactly when the raw argument does not conform, and
/// otherwise the whole item sequence in emission order.
pub open spec fn stream_spec(r: StreamResolver, ctx: ValueModel, arg: ValueModel) -> Result<
    Seq<Result<ValueModel, ExecError>>,
    ExecError,
> {
    if !spec_conforms(arg, stream_arg_desc(r)) {
        Err(ExecError::DeserializingArgErr)
    } else {
        match r {
            StreamResolver::CountTo => match arg {
                ValueModel::Num(k) => Ok(
                    Seq::new(
                        if k < 0 {
                            0nat
                        } else {
                            k as nat
                        },
                        |i: int| Ok(ValueModel::Num(i as i64)),
                    ),
                ),
                _ => Err(ExecError::DeserializingArgErr),
            },
            StreamResolver::Repeat { word } => match arg {
                ValueModel::Num(t) => Ok(
                    Seq::new(
                        if t < 0 {
                            0nat
                        } else {
                            t as nat
                        },
                        |i: int| Ok(ValueModel::Text(word@)),
                    ),
                ),
                _ => Err(ExecError::DeserializingArgErr),
            },
        }
    }
}

impl StreamResolver {
    /// Decodes the raw argument itself and produces the item sequence.
    #[verifier::loop_isolation(false)]
    pub fn resolve(&self, ctx: Value, arg: Value) -> (r: Result<
        Vec<Result<Value, ExecError>>,
        ExecError,
    >)
        ensures
            match r {
                Ok(items) => stream_spec(*self, ctx@, arg@) == Ok::<_, ExecError>(
                    items_model(items@),
                ),
                Err(e) => stream_spec(*self, ctx@, arg@) == Err::<
                    Seq<Result<ValueModel, ExecError>>,
                    _,
                >(e),
            },
    {
        let d = TypeDesc::Primitive(PrimitiveType::I64);
        if !conforms(&arg, &d) {
            return Err(ExecError::DeserializingArgErr);
        }
        match self {
            StreamResolver::CountTo => match arg {
                Value::Num(k) => {
                    let mut items: Vec<Result<Value, ExecError>> = Vec::new();
                    let mut i: i64 = 0;
                    while i < k
                        invariant
                            0 <= i,
                            i <= if k < 0 {
                                0int
                            } else {
                                k as int
                            },
                            items@.len() == i,
                            forall|j: int|
                                0 <= j < i ==> items@[j] == Ok::<Value, ExecError>(Value::Num(
                                    j as i64,
                                )),
                        decreases k - i,
                    {
                        items.push(Ok(Value::Num(i)));
                        i += 1;
                    }
                    proof {
                        assert(items_model(items@) =~= stream_spec(*self, ctx@, arg@)->Ok_0);
                    }
                    Ok(items)
                },
                _ => Err(ExecError::DeserializingArgErr),
            },
            StreamResolver::Repeat { word } => match arg {
                Value::Num(t) => {
                    let mut items: Vec<Result<Value, ExecError>> = Vec::new();
                    let mut i: i64 = 0;
                    while i < t
                        invariant
                            0 <= i,
                            i <= if t < 0 {
                                0int
                            } else {
                                t as int
                            },
                            items@.len() == i,
                            forall|j: int|
                                0 <= j < i ==> ((#[trigger] items@[j]) matches Ok(v) && v@
                                    == ValueModel::Text(word@)),
                        decreases t - i,
                    {
                        items.push(Ok(Value::Text(word.clone())));
                        i += 1;
                    }
                    proof {
                        assert(items_model(items@) =~= stream_spec(*self, ctx@, arg@)->Ok_0);
                    }
                    Ok(items)
                },
                _ => Err(ExecError::DeserializingArgErr),
            },
        }
    }

    /// Captures this stream resolver's schema views in the registry.
    pub fn typedef(&self, defs: &mut TypeDefs) -> (t: ProcedureDataType)
        requires
            old(defs).wf(),
        ensures
            final(defs).wf(),
            t@ == spec_typedef(stream_arg_desc(*self), stream_result_desc(*self), old(defs)@).0,
            final(defs)@ == spec_typedef(
                stream_arg_desc(*self),
                stream_result_desc(*self),
                old(defs)@,
            ).1,
    {
        match self {
            StreamResolver::CountTo => {
                let d = TypeDesc::Primitive(PrimitiveType::I64);
                typedef(&d, &d, defs)
            },
            StreamResolver::Repeat { .. } => {
                let a = TypeDesc::Primitive(PrimitiveType::I64);
                let r = TypeDesc::Primitive(PrimitiveType::Str);
                typedef(&a, &r, defs)
            },
        }
    }
}

} // verus!
