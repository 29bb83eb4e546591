//! Rendering schemas as TypeScript-style definitions, for the external
//! binding generator and for inspection: primitives map to `number`,
//! `string`, `boolean`; nullable wrappers to `| null`; lists to
//! `Array<..>`; maps to `Record<..>`; objects to `{ field: type }`,
//! quoting a field name that is no plain identifier.

use vstd::prelude::*;
use vstd::string::StrSliceExecFns;
use vstd::string::StringExecFns;

use crate::registry::TypeDefs;
use crate::schema::spec_definition;
use crate::schema::spec_inline;
use crate::schema::DataType;
use crate::schema::DataTypeModel;
use crate::schema::DefsModel;
use crate::schema::PrimitiveType;
use crate::schema::TypeDesc;
use crate::schema::TypeDescModel;

verus! {

/// A character a field name may carry without being quoted.
pub open spec fn is_ident_char(c: char) -> bool {
    ('a' <= c && c <= 'z') || ('A' <= c && c <= 'Z') || ('0' <= c && c <= '9') || c == '_' || c
        == '$'
}

/// A field name that stands bare; any other name is quoted.
pub open spec fn is_plain_ident(s: Seq<char>) -> bool {
    s.len() > 0 && forall|i: int| 0 <= i < s.len() ==> is_ident_char(s[i])
}

/// A field name as rendered: bare or quoted.
pub open spec fn key_text(s: Seq<char>) -> Seq<char> {
    if is_plain_ident(s) {
        s
    } else {
        "\""@ + s + "\""@
    }
}

/// The rendered text of a schema node.
pub open spec fn ts_of(dt: DataTypeModel) -> Seq<char>
    decreases dt, 0nat,
{
    match dt {
        DataTypeModel::Primitive(p) => match p {
            PrimitiveType::Bool => "boolean"@,
            PrimitiveType::I32 => "number"@,
            PrimitiveType::U32 => "number"@,
            PrimitiveType::I64 => "number"@,
            PrimitiveType::Str => "string"@,
        },
        DataTypeModel::Nullable(t) => ts_of(*t) + " | null"@,
        DataTypeModel::List(t) => "Array<"@ + ts_of(*t) + ">"@,
        DataTypeModel::Tuple(ts) => "["@ + ts_join(ts) + "]"@,
        DataTypeModel::Record(k, v) => "Record<"@ + ts_of(*k) + ", "@ + ts_of(*v) + ">"@,
        DataTypeModel::Named(n) => n,
        DataTypeModel::Generic(n) => n,
        DataTypeModel::Object { fields, .. } => if fields.len() == 0 {
            "{}"@
        } else {
            "{ "@ + fields_join(fields) + " }"@
        },
    }
}

/// Tuple elements joined with a comma.
pub open spec fn ts_join(ts: Seq<DataTypeModel>) -> Seq<char>
    decreases ts, 1nat,
{
    if ts.len() == 0 {
        Seq::empty()
    } else if ts.len() == 1 {
        ts_of(ts.last())
    } else {
        ts_join(ts.drop_last()) + ", "@ + ts_of(ts.last())
    }
}

/// Object fields joined with a comma, each as `name: type`.
pub open spec fn fields_join(fs: Seq<(Seq<char>, DataTypeModel)>) -> Seq<char>
    decreases fs, 1nat,
{
    if fs.len() == 0 {
        Seq::empty()
    } else if fs.len() == 1 {
        key_text(fs.last().0) + ": "@ + ts_of(fs.last().1)
    } else {
        fields_join(fs.drop_last()) + ", "@ + key_text(fs.last().0) + ": "@ + ts_of(fs.last().1)
    }
}

/// Whether a field name stands bare.
fn plain_ident(s: &str) -> (r: bool)
    ensures
        r == is_plain_ident(s@),
{
    let n = s.unicode_len();
    if n == 0 {
        return false;
    }
    let mut i: usize = 0;
    while i < n
        invariant
            n == s@.len(),
            i <= n,
            forall|j: int| 0 <= j < i ==> is_ident_char(s@[j]),
        decreases n - i,
    {
        let c = s.get_char(i);
        let ok = ('a' <= c && c <= 'z') || ('A' <= c && c <= 'Z') || ('0' <= c && c <= '9') || c
            == '_' || c == '$';
        if !ok {
            assert(!is_ident_char(s@[i as int]));
            return false;
        }
        i += 1;
    }
    true
}

/// Renders a schema node.
#[verifier::loop_isolation(false)]
#[verifier::rlimit(60)]
pub fn render(dt: &DataType) -> (r: String)
    ensures
        r@ == ts_of(dt@),
    decreases dt, 0nat,
{
    match dt {
        DataType::Primitive(p) => match p {
            PrimitiveType::Bool => "boolean".to_owned(),
            PrimitiveType::I32 => "number".to_owned(),
            PrimitiveType::U32 => "number".to_owned(),
            PrimitiveType::I64 => "number".to_owned(),
            PrimitiveType::Str => "string".to_owned(),
        },
        DataType::Nullable(t) => {
            let mut out = render(&**t);
            out.append(" | null");
            out
        },
        DataType::List(t) => {
            let mut out = "Array<".to_owned();
            out.append(render(&**t).as_str());
            out.append(">");
            out
        },
        DataType::Tuple(ts) => {
            let mut out = "[".to_owned();
            let ghost tm = crate::schema::dt_list_model(ts@);
            proof {
                crate::schema::lemma_dt_list_model(ts@);
            }
            let n = ts.len();
            let mut i: usize = 0;
            while i < n
                invariant
                    i <= n,
                    out@ == "["@ + ts_join(tm.subrange(0, i as int)),
                decreases n - i,
            {
                let ghost done = tm.subrange(0, i as int);
                let ghost next = tm.subrange(0, i as int + 1);
                proof {
                    assert(next.drop_last() =~= done);
                    assert(next.last() == tm[i as int]);
                }
                if i > 0 {
                    out.append(", ");
                }
                out.append(render(&ts[i]).as_str());
                i += 1;
            }
            proof {
                assert(tm.subrange(0, n as int) =~= tm);
            }
            out.append("]");
            out
        },
        DataType::Record(k, v) => {
            let mut out = "Record<".to_owned();
            out.append(render(&**k).as_str());
            out.append(", ");
            out.append(render(&**v).as_str());
            out.append(">");
            out
        },
        DataType::Named(n) => n.clone(),
        DataType::Generic(n) => n.clone(),
        DataType::Object { fields, .. } => {
            if fields.len() == 0 {
                proof {
                    crate::schema::lemma_dt_fields_model(fields@);
                }
                return "{}".to_owned();
            }
            let mut out = "{ ".to_owned();
            let ghost fm = crate::schema::dt_fields_model(fields@);
            proof {
                crate::schema::lemma_dt_fields_model(fields@);
            }
            let n = fields.len();
            let mut i: usize = 0;
            while i < n
                invariant
                    i <= n,
                    out@ == "{ "@ + fields_join(fm.subrange(0, i as int)),
                decreases n - i,
            {
                let ghost done = fm.subrange(0, i as int);
                let ghost next = fm.subrange(0, i as int + 1);
                proof {
                    assert(next.drop_last() =~= done);
                    assert(next.last() == fm[i as int]);
                }
                if i > 0 {
                    out.append(", ");
                }
                if plain_ident(fields[i].0.as_str()) {
                    out.append(fields[i].0.as_str());
                } else {
                    out.append("\"");
                    out.append(fields[i].0.as_str());
                    out.append("\"");
                }
                out.append(": ");
                out.append(render(&fields[i].1).as_str());
                i += 1;
            }
            proof {
                assert(fm.subrange(0, n as int) =~= fm);
            }
            out.append(" }");
            out
        },
    }
}

/// The rendered inline schema of a descriptor, as a binding generator
/// shows a type's fully expanded shape.
pub fn ts_definition(desc: &TypeDesc) -> (r: String)
    ensures
        r@ == ts_of(spec_inline(desc@, true, Map::empty()).0),
{
    let mut defs = TypeDefs::new();
    let dt = crate::schema::inline(desc, true, &mut defs);
    render(&dt)
}

/// The exported interface of a named type: its name and its stored
/// definition. Only a named struct has one.
pub fn ts_export(desc: &TypeDesc) -> (r: Option<String>)
    ensures
        match r {
            Some(s) => spec_definition(desc@, Map::empty()) matches Some(p) && s@
                == "export interface "@ + desc@->Struct_name + " "@ + ts_of(p.0),
            None => spec_definition(desc@, Map::empty()) is None,
        },
{
    match desc {
        TypeDesc::Struct { name, .. } => {
            let mut defs = TypeDefs::new();
            let dt = crate::schema::definition(desc, &mut defs);
            match dt {
                Some(d) => {
                    let mut out = "export interface ".to_owned();
                    out.append(name.as_str());
                    out.append(" ");
                    out.append(render(&d).as_str());
                    Some(out)
                },
                None => None,
            }
        },
        _ => None,
    }
}

} // verus!
