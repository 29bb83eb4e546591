use rspc::rename::struct_desc;
use rspc::rename::RenameRule;
use rspc::schema::PrimitiveType;
use rspc::schema::TypeDesc;
use rspc::typescript::ts_definition;
use rspc::typescript::ts_export;

fn field(name: &str, ty: TypeDesc) -> (String, TypeDesc) {
    (name.to_string(), ty)
}

#[test]
fn list() {
    let desc = struct_desc(
        "List",
        None,
        vec![field(
            "data",
            TypeDesc::Optional(Box::new(TypeDesc::ListOf(Box::new(TypeDesc::Primitive(
                PrimitiveType::U32,
            ))))),
        )],
    );

    assert_eq!(ts_definition(&desc), "{ data: Array<number> | null }");
    assert_eq!(
        ts_export(&desc).unwrap(),
        "export interface List { data: Array<number> | null }"
    );
}

#[test]
fn rename_all() {
    let desc = struct_desc(
        "Rename",
        Some(RenameRule::Uppercase),
        vec![
            field("a", TypeDesc::Primitive(PrimitiveType::I32)),
            field("b", TypeDesc::Primitive(PrimitiveType::I32)),
        ],
    );

    assert_eq!(ts_definition(&desc), "{ A: number, B: number }");
}

#[test]
fn serde_rename_special_char() {
    let desc = struct_desc(
        "RenameSerdeSpecialChar",
        None,
        vec![field("a/b", TypeDesc::Primitive(PrimitiveType::I32))],
    );

    assert_eq!(ts_definition(&desc), r#"{ "a/b": number }"#);
}
