use rspc::errors::BuildError;
use rspc::errors::ExecError;
use rspc::middleware::Middleware;
use rspc::naming::is_valid_procedure_name;
use rspc::registry::TypeDefs;
use rspc::resolver::RequestResolver;
use rspc::resolver::StreamResolver;
use rspc::router::ProcedureKind;
use rspc::router::Response;
use rspc::router::Router;
use rspc::schema::conforms;
use rspc::schema::reference;
use rspc::schema::DataType;
use rspc::schema::PrimitiveType;
use rspc::schema::TypeDesc;
use rspc::value::Value;

fn text(s: &str) -> Value {
    Value::Text(s.to_string())
}

#[test]
fn naming_contract() {
    // Rejected keys: the function answers true when a name is refused.
    assert!(is_valid_procedure_name(""));
    assert!(is_valid_procedure_name("ws"));
    assert!(is_valid_procedure_name("rpc.foo"));
    assert!(is_valid_procedure_name("rspc.foo"));
    assert!(is_valid_procedure_name("foo bar"));
    assert!(is_valid_procedure_name("foo-bar"));
    // Accepted keys.
    assert!(!is_valid_procedure_name("getUser"));
    assert!(!is_valid_procedure_name("user.list"));
}

#[test]
fn registry_idempotence() {
    let desc = TypeDesc::Struct {
        name: "Point".to_string(),
        fields: vec![
            ("x".to_string(), TypeDesc::Primitive(PrimitiveType::I32)),
            ("y".to_string(), TypeDesc::Primitive(PrimitiveType::I32)),
        ],
    };
    let mut defs = TypeDefs::new();

    let first = reference(&desc, &mut defs);
    let stored_once = format!("{:?}", defs.get("Point"));
    let second = reference(&desc, &mut defs);
    let stored_twice = format!("{:?}", defs.get("Point"));

    assert_eq!(first, DataType::Named("Point".to_string()));
    assert_eq!(second, DataType::Named("Point".to_string()));
    assert_eq!(stored_once, stored_twice);
    let expected = DataType::Object {
        name: "Point".to_string(),
        fields: vec![
            ("x".to_string(), DataType::Primitive(PrimitiveType::I32)),
            ("y".to_string(), DataType::Primitive(PrimitiveType::I32)),
        ],
    };
    assert_eq!(defs.get("Point"), Some(&expected));
}

#[test]
fn schema_round_trip() {
    let mut defs = TypeDefs::new();
    let nullable_numbers = TypeDesc::Optional(Box::new(TypeDesc::ListOf(Box::new(
        TypeDesc::Primitive(PrimitiveType::I64),
    ))));
    let inlined = rspc::schema::inline(&nullable_numbers, true, &mut defs);
    assert_eq!(
        inlined,
        DataType::Nullable(Box::new(DataType::List(Box::new(DataType::Primitive(
            PrimitiveType::I64
        )))))
    );

    let pair = TypeDesc::TupleOf(vec![
        TypeDesc::Primitive(PrimitiveType::Str),
        TypeDesc::Primitive(PrimitiveType::I64),
    ]);
    let inlined = rspc::schema::inline(&pair, true, &mut defs);
    assert_eq!(
        inlined,
        DataType::Tuple(vec![
            DataType::Primitive(PrimitiveType::Str),
            DataType::Primitive(PrimitiveType::I64),
        ])
    );

    let map = TypeDesc::MapOf(
        Box::new(TypeDesc::Primitive(PrimitiveType::Str)),
        Box::new(TypeDesc::Primitive(PrimitiveType::I64)),
    );
    let inlined = rspc::schema::inline(&map, true, &mut defs);
    assert_eq!(
        inlined,
        DataType::Record(
            Box::new(DataType::Primitive(PrimitiveType::Str)),
            Box::new(DataType::Primitive(PrimitiveType::I64)),
        )
    );
}

#[test]
fn conformance() {
    let numbers = TypeDesc::ListOf(Box::new(TypeDesc::Primitive(PrimitiveType::I32)));
    assert!(conforms(&Value::List(vec![Value::Num(1), Value::Num(2)]), &numbers));
    assert!(!conforms(&Value::List(vec![Value::Num(1), Value::Bool(true)]), &numbers));
    assert!(!conforms(&Value::Num(3_000_000_000), &TypeDesc::Primitive(PrimitiveType::I32)));
    assert!(conforms(&Value::Num(3_000_000_000), &TypeDesc::Primitive(PrimitiveType::U32)));
    assert!(conforms(&Value::Null, &TypeDesc::Optional(Box::new(TypeDesc::Primitive(
        PrimitiveType::Str,
    )))));
}

#[test]
fn end_to_end_greet() {
    let router = Router::new()
        .query("greet", RequestResolver::Concat { prefix: "Hello ".to_string() })
        .unwrap()
        .build();

    let got = router.execute(ProcedureKind::Query, "greet", Value::Null, text("Alice"));
    assert_eq!(got, Ok(Response::Value(text("Hello Alice"))));

    let missing = router.execute(ProcedureKind::Query, "missing", Value::Null, text("x"));
    assert_eq!(missing, Err(ExecError::ProcedureNotFoundErr));

    // A query is not a mutation: the stores are per kind.
    let wrong_kind = router.execute(ProcedureKind::Mutation, "greet", Value::Null, text("x"));
    assert_eq!(wrong_kind, Err(ExecError::ProcedureNotFoundErr));
}

#[test]
fn middleware_order_observed() {
    let router = Router::new()
        .middleware(Middleware::TagArg("[A]".to_string()))
        .middleware(Middleware::TagArg("[B]".to_string()))
        .query("probe", RequestResolver::Concat { prefix: "R:".to_string() })
        .unwrap()
        .build();

    let got = router.execute(ProcedureKind::Query, "probe", Value::Null, text("x"));
    assert_eq!(got, Ok(Response::Value(text("R:x[A][B]"))));
}

#[test]
fn middleware_short_circuit_skips_resolver() {
    let router = Router::new()
        .middleware(Middleware::TagArg("[A]".to_string()))
        .middleware(Middleware::Respond("halted".to_string()))
        .query("probe", RequestResolver::Concat { prefix: "R:".to_string() })
        .unwrap()
        .build();

    let got = router.execute(ProcedureKind::Query, "probe", Value::Null, text("x"));
    assert_eq!(got, Ok(Response::Value(text("halted"))));
}

#[test]
fn merge_prefixes_and_orders_chains() {
    let sub = Router::new()
        .middleware(Middleware::TagArg("[S]".to_string()))
        .query("greet", RequestResolver::Concat { prefix: "R:".to_string() })
        .unwrap();

    let router = Router::new()
        .middleware(Middleware::TagArg("[P]".to_string()))
        .query("greet", RequestResolver::Concat { prefix: "top:".to_string() })
        .unwrap()
        .merge("v2.", sub)
        .unwrap()
        .build();

    // The merged key exists, with the outer chain running first.
    let got = router.execute(ProcedureKind::Query, "v2.greet", Value::Null, text("x"));
    assert_eq!(got, Ok(Response::Value(text("R:x[P][S]"))));

    // The outer router's own key is untouched.
    let top = router.execute(ProcedureKind::Query, "greet", Value::Null, text("x"));
    assert_eq!(top, Ok(Response::Value(text("top:x[P]"))));
}

#[test]
fn merge_rejects_bad_prefix() {
    let sub = Router::new();
    let got = Router::new().merge("rpc.", sub);
    assert!(matches!(got, Err(BuildError::InvalidPrefix)));
}

#[test]
fn construction_errors() {
    let got = Router::new().query("rpc.x", RequestResolver::Negate);
    assert!(matches!(got, Err(BuildError::InvalidKey)));

    let got = Router::new()
        .query("twice", RequestResolver::Negate)
        .unwrap()
        .query("twice", RequestResolver::Negate);
    assert!(matches!(got, Err(BuildError::DuplicateKey)));
}

#[test]
fn request_errors() {
    let router = Router::new()
        .query("neg", RequestResolver::Negate)
        .unwrap()
        .query("boom", RequestResolver::Fail(TypeDesc::Primitive(PrimitiveType::Str)))
        .unwrap()
        .build();

    // A non-conforming argument is refused at decode time.
    let got = router.execute(ProcedureKind::Query, "neg", Value::Null, text("nan"));
    assert_eq!(got, Err(ExecError::DeserializingArgErr));

    // The handler's own declared failure is surfaced verbatim.
    let got = router.execute(ProcedureKind::Query, "boom", Value::Null, text("x"));
    assert_eq!(got, Err(ExecError::ResolverErr));

    // The one number without a representable negation fails the handler.
    let got = router.execute(ProcedureKind::Query, "neg", Value::Null, Value::Num(i64::MIN));
    assert_eq!(got, Err(ExecError::ResolverErr));

    let got = router.execute(ProcedureKind::Query, "neg", Value::Null, Value::Num(21));
    assert_eq!(got, Ok(Response::Value(Value::Num(-21))));
}

#[test]
fn subscription_streams() {
    let router = Router::new()
        .subscription("count", StreamResolver::CountTo)
        .unwrap()
        .subscription("echoes", StreamResolver::Repeat { word: "hi".to_string() })
        .unwrap()
        .build();

    let got = router.execute(ProcedureKind::Subscription, "count", Value::Null, Value::Num(3));
    assert_eq!(
        got,
        Ok(Response::Stream(vec![
            Ok(Value::Num(0)),
            Ok(Value::Num(1)),
            Ok(Value::Num(2)),
        ]))
    );

    let got = router.execute(ProcedureKind::Subscription, "echoes", Value::Null, Value::Num(2));
    assert_eq!(
        got,
        Ok(Response::Stream(vec![Ok(text("hi")), Ok(text("hi"))]))
    );

    let got = router.execute(ProcedureKind::Subscription, "count", Value::Null, text("x"));
    assert_eq!(got, Err(ExecError::DeserializingArgErr));
}

#[test]
fn mutation_dispatch() {
    let router = Router::new()
        .mutation("set", RequestResolver::Echo(TypeDesc::Primitive(PrimitiveType::Str)))
        .unwrap()
        .build();

    let got = router.execute(ProcedureKind::Mutation, "set", Value::Null, text("v"));
    assert_eq!(got, Ok(Response::Value(text("v"))));
}
