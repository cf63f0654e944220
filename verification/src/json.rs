//! The library's own JSON value type.
//!
//! Wire documents, call parameters and schema payloads travel as JSON. The
//! logic here works on `JsonValue`, a plain recursive datatype; only the two
//! boundary steps, text to value and value to text, are delegated to
//! `serde_json` behind trusted wrappers. A number is kept as its decimal
//! text, which is all the logic ever reads of one.

use vstd::prelude::*;

verus! {

/// The mathematical model of a JSON value.
pub enum JsonModel {
    Null,
    Bool(bool),
    Num(Seq<char>),
    Str(Seq<char>),
    Arr(Seq<JsonModel>),
    Obj(Seq<(Seq<char>, JsonModel)>),
}

/// A JSON value held as plain data.
#[derive(Debug)]
pub enum JsonValue {
    Null,
    Bool(bool),
    Num(String),
    Str(String),
    Arr(Vec<JsonValue>),
    Obj(Vec<(String, JsonValue)>),
}

/// The model of a value: each member and element modelled in place.
pub open spec fn json_model(v: JsonValue) -> JsonModel
    decreases v,
{
    match v {
        JsonValue::Null => JsonModel::Null,
        JsonValue::Bool(b) => JsonModel::Bool(b),
        JsonValue::Num(s) => JsonModel::Num(s@),
        JsonValue::Str(s) => JsonModel::Str(s@),
        JsonValue::Arr(items) => JsonModel::Arr(
            Seq::new(
                items.len() as nat,
                |i: int|
                    if 0 <= i < items.len() {
                        json_model(items[i])
                    } else {
                        JsonModel::Null
                    },
            ),
        ),
        JsonValue::Obj(fields) => JsonModel::Obj(
            Seq::new(
                fields.len() as nat,
                |i: int|
                    if 0 <= i < fields.len() {
                        (fields[i].0@, json_model(fields[i].1))
                    } else {
                        (Seq::<char>::empty(), JsonModel::Null)
                    },
            ),
        ),
    }
}

impl View for JsonValue {
    type V = JsonModel;

    open spec fn view(&self) -> JsonModel {
        json_model(*self)
    }
}

/// The models of a list of values, element by element.
pub open spec fn arr_model(items: Seq<JsonValue>) -> Seq<JsonModel> {
    Seq::new(items.len(), |i: int| items[i]@)
}

/// The models of a list of members, member by member.
pub open spec fn obj_model(fields: Seq<(String, JsonValue)>) -> Seq<(Seq<char>, JsonModel)> {
    Seq::new(fields.len(), |i: int| (fields[i].0@, fields[i].1@))
}

/// The value under the first occurrence of `key`, scanning members in order.
pub open spec fn obj_lookup(fields: Seq<(Seq<char>, JsonModel)>, key: Seq<char>) -> Option<
    JsonModel,
>
    decreases fields.len(),
{
    if fields.len() == 0 {
        None
    } else if fields[0].0 == key {
        Some(fields[0].1)
    } else {
        obj_lookup(fields.drop_first(), key)
    }
}

impl JsonModel {
    /// Member lookup: defined only on objects.
    pub open spec fn get(self, key: Seq<char>) -> Option<JsonModel> {
        match self {
            JsonModel::Obj(fields) => obj_lookup(fields, key),
            _ => None,
        }
    }
}

proof fn lemma_obj_lookup_skip(fields: Seq<(Seq<char>, JsonModel)>, key: Seq<char>, i: int)
    requires
        0 <= i <= fields.len(),
        forall|j: int| 0 <= j < i ==> fields[j].0 != key,
    ensures
        obj_lookup(fields, key) == obj_lookup(fields.skip(i), key),
    decreases i,
{
    if i > 0 {
        lemma_obj_lookup_skip(fields, key, i - 1);
        assert(fields.skip(i - 1).drop_first() =~= fields.skip(i));
        assert(fields.skip(i - 1)[0] == fields[i - 1]);
    } else {
        assert(fields.skip(0) =~= fields);
    }
}

/// A member of an object sits below the object in the well-founded order
/// that `decreases` clauses use.
pub proof fn lemma_obj_lookup_decreases(fields: Seq<(Seq<char>, JsonModel)>, key: Seq<char>)
    ensures
        (obj_lookup(fields, key) matches Some(v) ==> decreases_to!(fields => v)),
    decreases fields.len(),
{
    if fields.len() > 0 {
        if fields[0].0 == key {
            assert(decreases_to!(fields => fields[0]));
        } else {
            lemma_obj_lookup_decreases(fields.drop_first(), key);
            if obj_lookup(fields, key) is Some {
                assert(decreases_to!(fields => fields.drop_first()));
            }
        }
    }
}

/// So does the member of a member, through `get`.
pub proof fn lemma_get_decreases(j: JsonModel, key: Seq<char>)
    ensures
        (j.get(key) matches Some(v) ==> decreases_to!(j => v)),
{
    match j {
        JsonModel::Obj(fields) => {
            lemma_obj_lookup_decreases(fields, key);
            if j.get(key) is Some {
                assert(decreases_to!(j => fields));
            }
        },
        _ => {},
    }
}

impl JsonValue {
    /// Looks up a member of an object by key; `None` on any other value, or
    /// when no member has that key.
    pub fn get<'a>(&'a self, key: &str) -> (r: Option<&'a JsonValue>)
        ensures
            (match r {
                Some(v) => self@.get(key@) == Some(v@),
                None => self@.get(key@) is None,
            }),
            (r matches Some(v) ==> decreases_to!(*self => *v)),
    {
        match self {
            JsonValue::Obj(fields) => {
                let ghost model_fields = (self@)->Obj_0;
                let mut i: usize = 0;
                while i < fields.len()
                    invariant
                        i <= fields@.len(),
                        self is Obj,
                        *fields == self->Obj_0,
                        model_fields.len() == fields@.len(),
                        forall|k: int|
                            0 <= k < fields@.len() ==> model_fields[k] == (
                                fields@[k].0@,
                                fields@[k].1@,
                            ),
                        self@.get(key@) == obj_lookup(model_fields, key@),
                        forall|j: int| 0 <= j < i ==> model_fields[j].0 != key@,
                    decreases fields@.len() - i,
                {
                    if crate::text::str_eq(fields[i].0.as_str(), key) {
                        proof {
                            lemma_obj_lookup_skip(model_fields, key@, i as int);
                            assert(model_fields.skip(i as int)[0] == model_fields[i as int]);
                            assert(decreases_to!(*self => self->Obj_0));
                            assert(*fields == self->Obj_0);
                            assert(decreases_to!(*fields => fields[i as int]));
                            assert(decreases_to!(fields[i as int] => fields[i as int].1));
                        }
                        return Some(&fields[i].1);
                    }
                    i = i + 1;
                }
                proof {
                    lemma_obj_lookup_skip(model_fields, key@, model_fields.len() as int);
                }
                None
            },
            _ => None,
        }
    }

    /// Whether the value is null.
    pub fn is_null(&self) -> (r: bool)
        ensures
            r == (self@ is Null),
    {
        match self {
            JsonValue::Null => true,
            _ => false,
        }
    }

    /// The string payload, when the value is a string.
    pub fn as_str<'a>(&'a self) -> (r: Option<&'a String>)
        ensures
            (match r {
                Some(s) => self@ == JsonModel::Str(s@),
                None => !(self@ is Str),
            }),
    {
        match self {
            JsonValue::Str(s) => Some(s),
            _ => None,
        }
    }

    /// The decimal text of a number, when the value is a number.
    pub fn as_num<'a>(&'a self) -> (r: Option<&'a String>)
        ensures
            (match r {
                Some(s) => self@ == JsonModel::Num(s@),
                None => !(self@ is Num),
            }),
    {
        match self {
            JsonValue::Num(s) => Some(s),
            _ => None,
        }
    }

    /// The boolean payload, when the value is a boolean.
    pub fn as_bool(&self) -> (r: Option<bool>)
        ensures
            (match r {
                Some(b) => self@ == JsonModel::Bool(b),
                None => !(self@ is Bool),
            }),
    {
        match self {
            JsonValue::Bool(b) => Some(*b),
            _ => None,
        }
    }

    /// The member list, when the value is an object.
    pub fn as_object<'a>(&'a self) -> (r: Option<&'a Vec<(String, JsonValue)>>)
        ensures
            (match r {
                Some(fields) => self@ == JsonModel::Obj(obj_model(fields@)),
                None => !(self@ is Obj),
            }),
    {
        match self {
            JsonValue::Obj(fields) => {
                proof {
                    assert((self@)->Obj_0 =~= obj_model(fields@));
                }
                Some(fields)
            },
            _ => None,
        }
    }

    /// The element list, when the value is an array.
    pub fn as_array<'a>(&'a self) -> (r: Option<&'a Vec<JsonValue>>)
        ensures
            (match r {
                Some(items) => self@ == JsonModel::Arr(arr_model(items@)),
                None => !(self@ is Arr),
            }),
            (r matches Some(items) ==> decreases_to!(*self => *items)),
    {
        match self {
            JsonValue::Arr(items) => {
                proof {
                    assert((self@)->Arr_0 =~= arr_model(items@));
                }
                Some(items)
            },
            _ => None,
        }
    }
}

/// A deep copy of a value, member by member and element by element.
pub fn clone_json(v: &JsonValue) -> (r: JsonValue)
    ensures
        r@ == v@,
    decreases *v,
{
    match v {
        JsonValue::Null => JsonValue::Null,
        JsonValue::Bool(b) => JsonValue::Bool(*b),
        JsonValue::Num(s) => JsonValue::Num(s.clone()),
        JsonValue::Str(s) => JsonValue::Str(s.clone()),
        JsonValue::Arr(items) => {
            let mut out: Vec<JsonValue> = Vec::new();
            let mut i: usize = 0;
            while i < items.len()
                invariant
                    i <= items@.len(),
                    v is Arr,
                    *items == v->Arr_0,
                    out@.len() == i as int,
                    forall|k: int| 0 <= k < i ==> #[trigger] out@[k]@ == items@[k]@,
                decreases items@.len() - i,
            {
                proof {
                    assert(decreases_to!(*v => v->Arr_0));
                    assert(decreases_to!(*items => items[i as int]));
                }
                let c = clone_json(&items[i]);
                out.push(c);
                i = i + 1;
            }
            let r = JsonValue::Arr(out);
            proof {
                assert forall|k: int| 0 <= k < out@.len() implies json_model(r)->Arr_0[k]
                    == json_model(*v)->Arr_0[k] by {
                    assert(out@[k]@ == items@[k]@);
                }
                assert(json_model(r)->Arr_0 =~= json_model(*v)->Arr_0);
            }
            r
        },
        JsonValue::Obj(fields) => {
            let mut out: Vec<(String, JsonValue)> = Vec::new();
            let mut i: usize = 0;
            while i < fields.len()
                invariant
                    i <= fields@.len(),
                    v is Obj,
                    *fields == v->Obj_0,
                    out@.len() == i as int,
                    forall|k: int| 0 <= k < i ==> #[trigger] out@[k].0@ == fields@[k].0@,
                    forall|k: int| 0 <= k < i ==> #[trigger] out@[k].1@ == fields@[k].1@,
                decreases fields@.len() - i,
            {
                proof {
                    assert(decreases_to!(*v => v->Obj_0));
                    assert(decreases_to!(*fields => fields[i as int]));
                    assert(decreases_to!(fields[i as int] => fields[i as int].1));
                }
                let c = clone_json(&fields[i].1);
                out.push((fields[i].0.clone(), c));
                i = i + 1;
            }
            let r = JsonValue::Obj(out);
            proof {
                assert forall|k: int| 0 <= k < out@.len() implies json_model(r)->Obj_0[k]
                    == json_model(*v)->Obj_0[k] by {
                    assert(out@[k].0@ == fields@[k].0@);
                    assert(out@[k].1@ == fields@[k].1@);
                }
                assert(json_model(r)->Obj_0 =~= json_model(*v)->Obj_0);
            }
            r
        },
    }
}

/// A deep copy of a list of values, in order.
pub fn clone_json_vec(items: &Vec<JsonValue>) -> (r: Vec<JsonValue>)
    ensures
        r@.len() == items@.len(),
        forall|k: int| 0 <= k < items@.len() ==> #[trigger] r@[k]@ == items@[k]@,
{
    let mut out: Vec<JsonValue> = Vec::new();
    let mut i: usize = 0;
    while i < items.len()
        invariant
            i <= items@.len(),
            out@.len() == i as int,
            forall|k: int| 0 <= k < i ==> #[trigger] out@[k]@ == items@[k]@,
        decreases items@.len() - i,
    {
        let c = clone_json(&items[i]);
        out.push(c);
        i = i + 1;
    }
    out
}

#[verifier::external_type_specification]
#[verifier::external_body]
pub struct ExValue(serde_json::Value);

/// The value that `serde_json` parses out of a piece of text, `None` where
/// the text is not well-formed JSON.
pub uninterp spec fn json_of_text(s: Seq<char>) -> Option<JsonModel>;

/// The compact JSON text that `serde_json` renders a value as.
pub uninterp spec fn json_text_of(m: JsonModel) -> Seq<char>;

/// Relies on serde_json::Value: carries each variant over one for one; a
/// number is kept as its decimal text.
#[verifier::external_body]
fn value_to_json(v: serde_json::Value) -> JsonValue {
    match v {
        serde_json::Value::Null => JsonValue::Null,
        serde_json::Value::Bool(b) => JsonValue::Bool(b),
        serde_json::Value::Number(n) => JsonValue::Num(n.to_string()),
        serde_json::Value::String(s) => JsonValue::Str(s),
        serde_json::Value::Array(a) => JsonValue::Arr(a.into_iter().map(value_to_json).collect()),
        serde_json::Value::Object(o) => JsonValue::Obj(
            o.into_iter().map(|(k, w)| (k, value_to_json(w))).collect(),
        ),
    }
}

/// Relies on serde_json::Value: rebuilds each variant one for one; number
/// text that does not parse back as a JSON number becomes null.
#[verifier::external_body]
fn json_to_value(v: &JsonValue) -> serde_json::Value {
    match v {
        JsonValue::Null => serde_json::Value::Null,
        JsonValue::Bool(b) => serde_json::Value::Bool(*b),
        JsonValue::Num(n) => match n.parse::<serde_json::Number>() {
            Ok(num) => serde_json::Value::Number(num),
            Err(_) => serde_json::Value::Null,
        },
        JsonValue::Str(s) => serde_json::Value::String(s.clone()),
        JsonValue::Arr(items) => serde_json::Value::Array(items.iter().map(json_to_value).collect()),
        JsonValue::Obj(fields) => serde_json::Value::Object(
            fields.iter().map(|(k, w)| (k.clone(), json_to_value(w))).collect(),
        ),
    }
}

/// Relies on serde_json::from_str: parses JSON text; the result depends on
/// the text alone.
#[verifier::external_body]
pub(crate) fn parse_json(s: &str) -> (r: Option<JsonValue>)
    ensures
        (match r {
            Some(v) => json_of_text(s@) == Some(v@),
            None => json_of_text(s@) is None,
        }),
{
    match serde_json::from_str::<serde_json::Value>(s) {
        Ok(v) => Some(value_to_json(v)),
        Err(_) => None,
    }
}

/// Relies on serde_json::to_string: renders a value as compact JSON text;
/// the result depends on the value alone.
#[verifier::external_body]
pub(crate) fn json_to_text(v: &JsonValue) -> (r: String)
    ensures
        r@ == json_text_of(v@),
{
    match serde_json::to_string(&json_to_value(v)) {
        Ok(s) => s,
        Err(_) => String::new(),
    }
}

} // verus!
