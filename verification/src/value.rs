//! The structured value: the language-neutral tree of null, boolean,
//! number, string, ordered list and key-value object that crosses the
//! dispatch boundary as every argument and every result.
//!
//! Numbers are 64-bit signed integers: a wire value outside that range,
//! or a non-integer number, is refused by the encoding boundary before a
//! value reaches the dispatch engine.

use vstd::prelude::*;

verus! {

/// An argument or result crossing the dispatch boundary.
#[derive(Debug, PartialEq)]
pub enum Value {
    Null,
    Bool(bool),
    Num(i64),
    Text(String),
    List(Vec<Value>),
    Object(Vec<(String, Value)>),
}

/// The mathematical model of a [`Value`]: the same tree over sequences.
pub enum ValueModel {
    Null,
    Bool(bool),
    Num(i64),
    Text(Seq<char>),
    List(Seq<ValueModel>),
    Object(Seq<(Seq<char>, ValueModel)>),
}

/// Model of a list of values, element by element.
pub open spec fn list_model(s: Seq<Value>) -> Seq<ValueModel>
    decreases s, 1nat,
{
    if s.len() == 0 {
        Seq::empty()
    } else {
        list_model(s.drop_last()).push(s.last()@)
    }
}

/// Model of the field list of an object, pair by pair.
pub open spec fn fields_model(s: Seq<(String, Value)>) -> Seq<(Seq<char>, ValueModel)>
    decreases s, 1nat,
{
    if s.len() == 0 {
        Seq::empty()
    } else {
        fields_model(s.drop_last()).push((s.last().0@, s.last().1@))
    }
}

impl View for Value {
    type V = ValueModel;

    open spec fn view(&self) -> ValueModel
        decreases self, 0nat,
    {
        match self {
            Value::Null => ValueModel::Null,
            Value::Bool(b) => ValueModel::Bool(*b),
            Value::Num(n) => ValueModel::Num(*n),
            Value::Text(s) => ValueModel::Text(s@),
            Value::List(items) => ValueModel::List(list_model(items@)),
            Value::Object(fields) => ValueModel::Object(fields_model(fields@)),
        }
    }
}

/// A list's model keeps its length and models each element in place.
pub proof fn lemma_list_model(s: Seq<Value>)
    ensures
        list_model(s).len() == s.len(),
        forall|i: int| 0 <= i < s.len() ==> list_model(s)[i] == #[trigger] s[i]@,
    decreases s.len(),
{
    if s.len() > 0 {
        lemma_list_model(s.drop_last());
        assert(list_model(s) == list_model(s.drop_last()).push(s.last()@));
        assert forall|i: int| 0 <= i < s.len() implies list_model(s)[i] == #[trigger] s[i]@ by {
            if i < s.len() - 1 {
                assert(s.drop_last()[i] == s[i]);
            }
        }
    }
}

/// An object's field list keeps its length and models each pair in place.
pub proof fn lemma_fields_model(s: Seq<(String, Value)>)
    ensures
        fields_model(s).len() == s.len(),
        forall|i: int|
            0 <= i < s.len() ==> fields_model(s)[i] == (#[trigger] s[i].0@, s[i].1@),
    decreases s.len(),
{
    if s.len() > 0 {
        lemma_fields_model(s.drop_last());
        assert(fields_model(s) == fields_model(s.drop_last()).push((s.last().0@, s.last().1@)));
        assert forall|i: int|
            0 <= i < s.len() implies fields_model(s)[i] == (#[trigger] s[i].0@, s[i].1@) by {
            if i < s.len() - 1 {
                assert(s.drop_last()[i] == s[i]);
            }
        }
    }
}

} // verus!
