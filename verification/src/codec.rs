//! Wire codec for schema trees.
//!
//! A schema crosses the network as a self-describing JSON value: an object
//! with a `kind` tag naming the node and a `value` payload carrying it.
//! Encoding and decoding are defined here over the JSON model, together with
//! the proof that decoding undoes encoding.

use vstd::prelude::*;
use crate::json::{json_model, lemma_get_decreases, JsonModel, JsonValue, obj_lookup};
use crate::types::{
    EnumModel, EnumSchema, FieldModel, FieldSchema, SchemaModel, StructModel, StructSchema,
    TypeSchema, VariantModel, VariantSchema,
};

verus! {

/// A tagged wire node: `{"kind": tag, "value": payload}`.
pub open spec fn tagged(kind: Seq<char>, value: JsonModel) -> JsonModel {
    JsonModel::Obj(seq![("kind"@, JsonModel::Str(kind)), ("value"@, value)])
}

/// The wire form of a single struct field.
pub open spec fn encode_field(f: FieldModel) -> JsonModel
    decreases f,
{
    JsonModel::Obj(
        seq![
            ("field_name"@, JsonModel::Str(f.field_name)),
            ("field_type"@, encode_model(*f.field_type)),
            ("optional"@, JsonModel::Bool(f.optional)),
        ],
    )
}

/// The wire form of a single enum variant; an absent inner schema is null.
pub open spec fn encode_variant(v: VariantModel) -> JsonModel
    decreases v,
{
    JsonModel::Obj(
        seq![
            ("variant_name"@, JsonModel::Str(v.variant_name)),
            (
                "inner_schema"@,
                match v.inner_schema {
                    Some(inner) => encode_model(*inner),
                    None => JsonModel::Null,
                },
            ),
        ],
    )
}

/// The wire form of a whole schema tree.
pub open spec fn encode_model(m: SchemaModel) -> JsonModel
    decreases m,
{
    match m {
        SchemaModel::Primitive(n) => tagged("Primitive"@, JsonModel::Str(n)),
        SchemaModel::Struct(sm) => tagged(
            "Struct"@,
            JsonModel::Obj(
                seq![
                    ("type_name"@, JsonModel::Str(sm.ty_name)),
                    (
                        "fields"@,
                        JsonModel::Arr(
                            Seq::new(
                                sm.fields.len(),
                                |i: int|
                                    if 0 <= i < sm.fields.len() {
                                        encode_field(sm.fields[i])
                                    } else {
                                        JsonModel::Null
                                    },
                            ),
                        ),
                    ),
                ],
            ),
        ),
        SchemaModel::Enum(em) => tagged(
            "Enum"@,
            JsonModel::Obj(
                seq![
                    ("type_name"@, JsonModel::Str(em.ty_name)),
                    (
                        "variants"@,
                        JsonModel::Arr(
                            Seq::new(
                                em.variants.len(),
                                |i: int|
                                    if 0 <= i < em.variants.len() {
                                        encode_variant(em.variants[i])
                                    } else {
                                        JsonModel::Null
                                    },
                            ),
                        ),
                    ),
                ],
            ),
        ),
        SchemaModel::Container { container_type, inner_type } => tagged(
            "Container"@,
            JsonModel::Obj(
                seq![
                    ("container_type"@, JsonModel::Str(container_type)),
                    ("inner_type"@, encode_model(*inner_type)),
                ],
            ),
        ),
        SchemaModel::Tuple(items) => tagged(
            "Tuple"@,
            JsonModel::Arr(
                Seq::new(
                    items.len(),
                    |i: int|
                        if 0 <= i < items.len() {
                            encode_model(items[i])
                        } else {
                            JsonModel::Null
                        },
                ),
            ),
        ),
        SchemaModel::Opaque(n) => tagged("Opaque"@, JsonModel::Str(n)),
    }
}

/// Reads a schema tree back out of its wire form; `None` where the value is
/// not a well-formed wire node.
pub open spec fn decode_model(j: JsonModel) -> Option<SchemaModel>
    decreases j,
    via decode_model_dec
{
    match (j.get("kind"@), j.get("value"@)) {
        (Some(JsonModel::Str(kind)), Some(value)) => {
            if kind == "Primitive"@ {
                match value {
                    JsonModel::Str(n) => Some(SchemaModel::Primitive(n)),
                    _ => None,
                }
            } else if kind == "Opaque"@ {
                match value {
                    JsonModel::Str(n) => Some(SchemaModel::Opaque(n)),
                    _ => None,
                }
            } else if kind == "Struct"@ {
                match (value.get("type_name"@), value.get("fields"@)) {
                    (Some(JsonModel::Str(tn)), Some(JsonModel::Arr(items))) => {
                        match decode_field_list(items) {
                            Some(fields) => Some(
                                SchemaModel::Struct(StructModel { ty_name: tn, fields }),
                            ),
                            None => None,
                        }
                    },
                    _ => None,
                }
            } else if kind == "Enum"@ {
                match (value.get("type_name"@), value.get("variants"@)) {
                    (Some(JsonModel::Str(tn)), Some(JsonModel::Arr(items))) => {
                        match decode_variant_list(items) {
                            Some(variants) => Some(
                                SchemaModel::Enum(EnumModel { ty_name: tn, variants }),
                            ),
                            None => None,
                        }
                    },
                    _ => None,
                }
            } else if kind == "Container"@ {
                match (value.get("container_type"@), value.get("inner_type"@)) {
                    (Some(JsonModel::Str(ct)), Some(inner)) => {
                        match decode_model(inner) {
                            Some(im) => Some(
                                SchemaModel::Container {
                                    container_type: ct,
                                    inner_type: Box::new(im),
                                },
                            ),
                            None => None,
                        }
                    },
                    _ => None,
                }
            } else if kind == "Tuple"@ {
                match value {
                    JsonModel::Arr(items) => {
                        match decode_schema_list(items) {
                            Some(ms) => Some(SchemaModel::Tuple(ms)),
                            None => None,
                        }
                    },
                    _ => None,
                }
            } else {
                None
            }
        },
        _ => None,
    }
}

#[via_fn]
proof fn decode_model_dec(j: JsonModel) {
    lemma_get_decreases(j, "value"@);
    match j.get("value"@) {
        Some(value) => {
            lemma_get_decreases(value, "inner_type"@);
            lemma_get_decreases(value, "fields"@);
            lemma_get_decreases(value, "variants"@);
        },
        None => {},
    }
}

/// Reads a list of struct fields back out of wire form.
pub open spec fn decode_field_list(items: Seq<JsonModel>) -> Option<Seq<FieldModel>>
    decreases items,
    via decode_field_list_dec
{
    if items.len() == 0 {
        Some(Seq::empty())
    } else {
        match (decode_field(items[0]), decode_field_list(items.drop_first())) {
            (Some(f), Some(rest)) => Some(seq![f] + rest),
            _ => None,
        }
    }
}

#[via_fn]
proof fn decode_field_list_dec(items: Seq<JsonModel>) {
    if items.len() > 0 {
        assert(decreases_to!(items => items[0]));
        assert(items.drop_first() == items.subrange(1, items.len() as int));
        assert(decreases_to!(items => items.subrange(1, items.len() as int)));
    }
}

/// Reads one struct field back out of wire form.
pub open spec fn decode_field(j: JsonModel) -> Option<FieldModel>
    decreases j,
    via decode_field_dec
{
    match (j.get("field_name"@), j.get("field_type"@), j.get("optional"@)) {
        (Some(JsonModel::Str(name)), Some(ft), Some(JsonModel::Bool(optional))) => {
            match decode_model(ft) {
                Some(m) => Some(
                    FieldModel { field_name: name, field_type: Box::new(m), optional },
                ),
                None => None,
            }
        },
        _ => None,
    }
}

#[via_fn]
proof fn decode_field_dec(j: JsonModel) {
    lemma_get_decreases(j, "field_type"@);
}

/// Reads a list of enum variants back out of wire form.
pub open spec fn decode_variant_list(items: Seq<JsonModel>) -> Option<Seq<VariantModel>>
    decreases items,
    via decode_variant_list_dec
{
    if items.len() == 0 {
        Some(Seq::empty())
    } else {
        match (decode_variant(items[0]), decode_variant_list(items.drop_first())) {
            (Some(v), Some(rest)) => Some(seq![v] + rest),
            _ => None,
        }
    }
}

#[via_fn]
proof fn decode_variant_list_dec(items: Seq<JsonModel>) {
    if items.len() > 0 {
        assert(decreases_to!(items => items[0]));
        assert(items.drop_first() == items.subrange(1, items.len() as int));
        assert(decreases_to!(items => items.subrange(1, items.len() as int)));
    }
}

/// Reads one enum variant back out of wire form; null means no inner schema.
pub open spec fn decode_variant(j: JsonModel) -> Option<VariantModel>
    decreases j,
    via decode_variant_dec
{
    match (j.get("variant_name"@), j.get("inner_schema"@)) {
        (Some(JsonModel::Str(name)), Some(inner)) => {
            if inner is Null {
                Some(VariantModel { variant_name: name, inner_schema: None })
            } else {
                match decode_model(inner) {
                    Some(m) => Some(
                        VariantModel { variant_name: name, inner_schema: Some(Box::new(m)) },
                    ),
                    None => None,
                }
            }
        },
        _ => None,
    }
}

#[via_fn]
proof fn decode_variant_dec(j: JsonModel) {
    lemma_get_decreases(j, "inner_schema"@);
}

/// Reads a list of schema trees back out of wire form.
pub open spec fn decode_schema_list(items: Seq<JsonModel>) -> Option<Seq<SchemaModel>>
    decreases items,
    via decode_schema_list_dec
{
    if items.len() == 0 {
        Some(Seq::empty())
    } else {
        match (decode_model(items[0]), decode_schema_list(items.drop_first())) {
            (Some(m), Some(rest)) => Some(seq![m] + rest),
            _ => None,
        }
    }
}

#[via_fn]
proof fn decode_schema_list_dec(items: Seq<JsonModel>) {
    if items.len() > 0 {
        assert(decreases_to!(items => items[0]));
        assert(items.drop_first() == items.subrange(1, items.len() as int));
        assert(decreases_to!(items => items.subrange(1, items.len() as int)));
    }
}

/// Whatever the node, its wire form is an object.
proof fn lemma_encode_is_obj(m: SchemaModel)
    ensures
        encode_model(m) is Obj,
{
    match m {
        SchemaModel::Primitive(n) => {},
        SchemaModel::Struct(sm) => {},
        SchemaModel::Enum(em) => {},
        SchemaModel::Container { container_type, inner_type } => {},
        SchemaModel::Tuple(items) => {},
        SchemaModel::Opaque(n) => {},
    }
}

/// Lookup in a two-member object literal.
proof fn lemma_obj2(k1: Seq<char>, v1: JsonModel, k2: Seq<char>, v2: JsonModel)
    requires
        k1 != k2,
    ensures
        obj_lookup(seq![(k1, v1), (k2, v2)], k1) == Some(v1),
        obj_lookup(seq![(k1, v1), (k2, v2)], k2) == Some(v2),
{
    reveal_with_fuel(obj_lookup, 3);
    let s = seq![(k1, v1), (k2, v2)];
    assert(s.drop_first() =~= seq![(k2, v2)]);
}

/// Lookup in a three-member object literal.
proof fn lemma_obj3(
    k1: Seq<char>,
    v1: JsonModel,
    k2: Seq<char>,
    v2: JsonModel,
    k3: Seq<char>,
    v3: JsonModel,
)
    requires
        k1 != k2,
        k1 != k3,
        k2 != k3,
    ensures
        obj_lookup(seq![(k1, v1), (k2, v2), (k3, v3)], k1) == Some(v1),
        obj_lookup(seq![(k1, v1), (k2, v2), (k3, v3)], k2) == Some(v2),
        obj_lookup(seq![(k1, v1), (k2, v2), (k3, v3)], k3) == Some(v3),
{
    reveal_with_fuel(obj_lookup, 4);
    let s = seq![(k1, v1), (k2, v2), (k3, v3)];
    assert(s.drop_first() =~= seq![(k2, v2), (k3, v3)]);
    assert(seq![(k2, v2), (k3, v3)].drop_first() =~= seq![(k3, v3)]);
}

/// The tags and keys of the wire format are pairwise distinct.
proof fn lemma_wire_keys()
    ensures
        "kind"@ != "value"@,
        "type_name"@ != "fields"@,
        "type_name"@ != "variants"@,
        "container_type"@ != "inner_type"@,
        "field_name"@ != "field_type"@,
        "field_name"@ != "optional"@,
        "field_type"@ != "optional"@,
        "variant_name"@ != "inner_schema"@,
        "Opaque"@ != "Primitive"@,
        "Struct"@ != "Primitive"@,
        "Struct"@ != "Opaque"@,
        "Enum"@ != "Primitive"@,
        "Enum"@ != "Opaque"@,
        "Enum"@ != "Struct"@,
        "Container"@ != "Primitive"@,
        "Container"@ != "Opaque"@,
        "Container"@ != "Struct"@,
        "Container"@ != "Enum"@,
        "Tuple"@ != "Primitive"@,
        "Tuple"@ != "Opaque"@,
        "Tuple"@ != "Struct"@,
        "Tuple"@ != "Enum"@,
        "Tuple"@ != "Container"@,
{
    reveal_strlit("kind");
    reveal_strlit("value");
    reveal_strlit("type_name");
    reveal_strlit("fields");
    reveal_strlit("variants");
    reveal_strlit("container_type");
    reveal_strlit("inner_type");
    reveal_strlit("field_name");
    reveal_strlit("field_type");
    reveal_strlit("optional");
    reveal_strlit("variant_name");
    reveal_strlit("inner_schema");
    reveal_strlit("Primitive");
    reveal_strlit("Opaque");
    reveal_strlit("Struct");
    reveal_strlit("Enum");
    reveal_strlit("Container");
    reveal_strlit("Tuple");
    assert(("kind"@).len() == 4);
    assert(("value"@).len() == 5);
    assert(("type_name"@).len() == 9);
    assert(("fields"@).len() == 6);
    assert(("variants"@).len() == 8);
    assert(("container_type"@).len() == 14);
    assert(("inner_type"@).len() == 10);
    assert(("field_name"@).len() == 10);
    assert(("field_type"@).len() == 10);
    assert(("optional"@).len() == 8);
    assert(("variant_name"@).len() == 12);
    assert(("inner_schema"@).len() == 12);
    assert(("Primitive"@).len() == 9);
    assert(("Opaque"@).len() == 6);
    assert(("Struct"@).len() == 6);
    assert(("Enum"@).len() == 4);
    assert(("Container"@).len() == 9);
    assert(("Tuple"@).len() == 5);
    assert(("field_name"@)[6] == 'n');
    assert(("field_type"@)[6] == 't');
    assert(("variant_name"@)[0] == 'v');
    assert(("inner_schema"@)[0] == 'i');
    assert(("Struct"@)[0] == 'S');
    assert(("Opaque"@)[0] == 'O');
    assert(("Container"@)[0] == 'C');
    assert(("Primitive"@)[0] == 'P');
}

/// Decoding a wire node undoes encoding it.
pub proof fn lemma_decode_encode(m: SchemaModel)
    ensures
        decode_model(encode_model(m)) == Some(m),
    decreases m,
{
    lemma_wire_keys();
    match m {
        SchemaModel::Primitive(n) => {
            lemma_obj2("kind"@, JsonModel::Str("Primitive"@), "value"@, JsonModel::Str(n));
        },
        SchemaModel::Opaque(n) => {
            lemma_obj2("kind"@, JsonModel::Str("Opaque"@), "value"@, JsonModel::Str(n));
        },
        SchemaModel::Struct(sm) => {
            let j = encode_model(m);
            let value_e = (j->Obj_0)[1].1;
            let js_e = ((value_e->Obj_0)[1].1)->Arr_0;
            assert(js_e.len() == sm.fields.len());
            assert(forall|i: int|
                0 <= i < sm.fields.len() ==> js_e[i] == encode_field(#[trigger] sm.fields[i]));
            lemma_obj2("kind"@, JsonModel::Str("Struct"@), "value"@, value_e);
            lemma_obj2("type_name"@, JsonModel::Str(sm.ty_name), "fields"@, JsonModel::Arr(js_e));
            lemma_decode_encode_field_list(js_e, sm.fields);
        },
        SchemaModel::Enum(em) => {
            let j = encode_model(m);
            let value_e = (j->Obj_0)[1].1;
            let js_e = ((value_e->Obj_0)[1].1)->Arr_0;
            assert(js_e.len() == em.variants.len());
            assert(forall|i: int|
                0 <= i < em.variants.len() ==> js_e[i] == encode_variant(#[trigger] em.variants[i]));
            lemma_obj2("kind"@, JsonModel::Str("Enum"@), "value"@, value_e);
            lemma_obj2("type_name"@, JsonModel::Str(em.ty_name), "variants"@, JsonModel::Arr(js_e));
            lemma_decode_encode_variant_list(js_e, em.variants);
        },
        SchemaModel::Container { container_type, inner_type } => {
            let value = JsonModel::Obj(
                seq![
                    ("container_type"@, JsonModel::Str(container_type)),
                    ("inner_type"@, encode_model(*inner_type)),
                ],
            );
            lemma_obj2("kind"@, JsonModel::Str("Container"@), "value"@, value);
            lemma_obj2(
                "container_type"@,
                JsonModel::Str(container_type),
                "inner_type"@,
                encode_model(*inner_type),
            );
            lemma_decode_encode(*inner_type);
        },
        SchemaModel::Tuple(items) => {
            let j = encode_model(m);
            let js_e = ((j->Obj_0)[1].1)->Arr_0;
            assert(js_e.len() == items.len());
            assert(forall|i: int|
                0 <= i < items.len() ==> js_e[i] == encode_model(#[trigger] items[i]));
            lemma_obj2("kind"@, JsonModel::Str("Tuple"@), "value"@, JsonModel::Arr(js_e));
            lemma_decode_encode_schema_list(js_e, items);
        },
    }
}

/// Decoding a list of encoded fields gives the fields back.
proof fn lemma_decode_encode_field_list(js: Seq<JsonModel>, fs: Seq<FieldModel>)
    requires
        js.len() == fs.len(),
        forall|i: int| 0 <= i < fs.len() ==> js[i] == encode_field(#[trigger] fs[i]),
    ensures
        decode_field_list(js) == Some(fs),
    decreases fs,
{
    if fs.len() == 0 {
        assert(fs =~= Seq::<FieldModel>::empty());
    } else {
        lemma_decode_encode_field(fs[0]);
        lemma_decode_encode_field_list(js.drop_first(), fs.drop_first());
        assert(seq![fs[0]] + fs.drop_first() =~= fs);
    }
}

/// Decoding one encoded field gives the field back.
proof fn lemma_decode_encode_field(f: FieldModel)
    ensures
        decode_field(encode_field(f)) == Some(f),
    decreases f,
{
    lemma_wire_keys();
    lemma_obj3(
        "field_name"@,
        JsonModel::Str(f.field_name),
        "field_type"@,
        encode_model(*f.field_type),
        "optional"@,
        JsonModel::Bool(f.optional),
    );
    lemma_decode_encode(*f.field_type);
}

/// Decoding a list of encoded variants gives the variants back.
proof fn lemma_decode_encode_variant_list(js: Seq<JsonModel>, vs: Seq<VariantModel>)
    requires
        js.len() == vs.len(),
        forall|i: int| 0 <= i < vs.len() ==> js[i] == encode_variant(#[trigger] vs[i]),
    ensures
        decode_variant_list(js) == Some(vs),
    decreases vs,
{
    if vs.len() == 0 {
        assert(vs =~= Seq::<VariantModel>::empty());
    } else {
        lemma_decode_encode_variant(vs[0]);
        lemma_decode_encode_variant_list(js.drop_first(), vs.drop_first());
        assert(seq![vs[0]] + vs.drop_first() =~= vs);
    }
}

/// Decoding one encoded variant gives the variant back.
proof fn lemma_decode_encode_variant(v: VariantModel)
    ensures
        decode_variant(encode_variant(v)) == Some(v),
    decreases v,
{
    lemma_wire_keys();
    match v.inner_schema {
        Some(inner) => {
            lemma_obj2(
                "variant_name"@,
                JsonModel::Str(v.variant_name),
                "inner_schema"@,
                encode_model(*inner),
            );
            lemma_encode_is_obj(*inner);
            lemma_decode_encode(*inner);
            assert(encode_variant(v)->Obj_0 =~= seq![
                ("variant_name"@, JsonModel::Str(v.variant_name)),
                ("inner_schema"@, encode_model(*inner)),
            ]);
        },
        None => {
            lemma_obj2(
                "variant_name"@,
                JsonModel::Str(v.variant_name),
                "inner_schema"@,
                JsonModel::Null,
            );
            assert(encode_variant(v)->Obj_0 =~= seq![
                ("variant_name"@, JsonModel::Str(v.variant_name)),
                ("inner_schema"@, JsonModel::Null),
            ]);
        },
    }
}

/// Builds a two-member JSON object.
fn obj2_value(k1: &str, v1: JsonValue, k2: &str, v2: JsonValue) -> (r: JsonValue)
    ensures
        r@ == JsonModel::Obj(seq![(k1@, v1@), (k2@, v2@)]),
{
    let ghost m1 = v1@;
    let ghost m2 = v2@;
    let mut fields: Vec<(String, JsonValue)> = Vec::new();
    fields.push((k1.to_owned(), v1));
    fields.push((k2.to_owned(), v2));
    let r = JsonValue::Obj(fields);
    proof {
        assert(json_model(r)->Obj_0 =~= seq![(k1@, m1), (k2@, m2)]);
    }
    r
}

/// Builds a three-member JSON object.
fn obj3_value(k1: &str, v1: JsonValue, k2: &str, v2: JsonValue, k3: &str, v3: JsonValue) -> (r:
    JsonValue)
    ensures
        r@ == JsonModel::Obj(seq![(k1@, v1@), (k2@, v2@), (k3@, v3@)]),
{
    let ghost m1 = v1@;
    let ghost m2 = v2@;
    let ghost m3 = v3@;
    let mut fields: Vec<(String, JsonValue)> = Vec::new();
    fields.push((k1.to_owned(), v1));
    fields.push((k2.to_owned(), v2));
    fields.push((k3.to_owned(), v3));
    let r = JsonValue::Obj(fields);
    proof {
        assert(json_model(r)->Obj_0 =~= seq![(k1@, m1), (k2@, m2), (k3@, m3)]);
    }
    r
}

/// Builds a JSON array.
fn arr_value(items: Vec<JsonValue>) -> (r: JsonValue)
    ensures
        r@ == JsonModel::Arr(crate::json::arr_model(items@)),
{
    let r = JsonValue::Arr(items);
    proof {
        assert(json_model(r)->Arr_0 =~= crate::json::arr_model(r->Arr_0@));
    }
    r
}

/// Builds the tagged wire node around a payload.
fn tagged_value(kind: &str, value: JsonValue) -> (r: JsonValue)
    ensures
        r@ == tagged(kind@, value@),
{
    let ghost vm = value@;
    let r = obj2_value("kind", JsonValue::Str(kind.to_owned()), "value", value);
    proof {
        assert(r@->Obj_0 =~= tagged(kind@, vm)->Obj_0);
    }
    r
}

/// Renders a schema tree in its wire form.
pub fn encode_schema(s: &TypeSchema) -> (r: JsonValue)
    ensures
        r@ == encode_model(s@),
    decreases *s,
{
    match s {
        TypeSchema::Primitive(n) => {
            tagged_value("Primitive", JsonValue::Str(n.clone()))
        },
        TypeSchema::Opaque(n) => {
            tagged_value("Opaque", JsonValue::Str(n.clone()))
        },
        TypeSchema::Container { container_type, inner_type } => {
            proof {
                assert(decreases_to!(*s => s->Container_inner_type));
            }
            let inner = encode_schema(&*inner_type);
            let value = obj2_value(
                "container_type",
                JsonValue::Str(container_type.clone()),
                "inner_type",
                inner,
            );
            let r = tagged_value("Container", value);
            proof {
                let em = encode_model(s@);
                assert(value@->Obj_0 =~= (em->Obj_0)[1].1->Obj_0);
                assert(r@->Obj_0 =~= em->Obj_0);
            }
            r
        },
        TypeSchema::Struct(ss) => {
            let mut encoded: Vec<JsonValue> = Vec::new();
            let mut i: usize = 0;
            while i < ss.fields.len()
                invariant
                    i <= ss.fields@.len(),
                    s is Struct,
                    *ss == s->Struct_0,
                    encoded@.len() == i as int,
                    forall|k: int|
                        0 <= k < i ==> encoded@[k]@ == encode_field(#[trigger] ss.fields@[k]@),
                decreases ss.fields@.len() - i,
            {
                proof {
                    assert(decreases_to!(*s => s->Struct_0));
                    assert(decreases_to!(s->Struct_0 => s->Struct_0.fields));
                    assert(decreases_to!(ss.fields => ss.fields[i as int]));
                }
                let ef = encode_field_value(&ss.fields[i]);
                encoded.push(ef);
                i = i + 1;
            }
            let value = obj2_value(
                "type_name",
                JsonValue::Str(ss.ty_name.clone()),
                "fields",
                arr_value(encoded),
            );
            let r = tagged_value("Struct", value);
            proof {
                let em = encode_model(s@);
                let value_e = (em->Obj_0)[1].1;
                assert(value_e is Obj);
                let js_e = ((value_e->Obj_0)[1].1)->Arr_0;
                assert(js_e.len() == ss.fields@.len());
                assert forall|k: int|
                    0 <= k < ss.fields@.len() implies crate::json::arr_model(encoded@)[k]
                    == js_e[k] by {
                    assert(encoded@[k]@ == encode_field(ss.fields@[k]@));
                }
                assert(crate::json::arr_model(encoded@) =~= js_e);
                assert(value@->Obj_0 =~= value_e->Obj_0);
                assert(r@->Obj_0 =~= em->Obj_0);
            }
            r
        },
        TypeSchema::Enum(es) => {
            let mut encoded: Vec<JsonValue> = Vec::new();
            let mut i: usize = 0;
            while i < es.variants.len()
                invariant
                    i <= es.variants@.len(),
                    s is Enum,
                    *es == s->Enum_0,
                    encoded@.len() == i as int,
                    forall|k: int|
                        0 <= k < i ==> encoded@[k]@ == encode_variant(#[trigger] es.variants@[k]@),
                decreases es.variants@.len() - i,
            {
                proof {
                    assert(decreases_to!(*s => s->Enum_0));
                    assert(decreases_to!(s->Enum_0 => s->Enum_0.variants));
                    assert(decreases_to!(es.variants => es.variants[i as int]));
                }
                let ev = encode_variant_value(&es.variants[i]);
                encoded.push(ev);
                i = i + 1;
            }
            let value = obj2_value(
                "type_name",
                JsonValue::Str(es.ty_name.clone()),
                "variants",
                arr_value(encoded),
            );
            let r = tagged_value("Enum", value);
            proof {
                let em = encode_model(s@);
                let value_e = (em->Obj_0)[1].1;
                let js_e = ((value_e->Obj_0)[1].1)->Arr_0;
                assert forall|k: int|
                    0 <= k < es.variants@.len() implies crate::json::arr_model(encoded@)[k]
                    == js_e[k] by {
                    assert(encoded@[k]@ == encode_variant(es.variants@[k]@));
                }
                assert(crate::json::arr_model(encoded@) =~= js_e);
                assert(value@->Obj_0 =~= value_e->Obj_0);
                assert(r@->Obj_0 =~= em->Obj_0);
            }
            r
        },
        TypeSchema::Tuple(items) => {
            let mut encoded: Vec<JsonValue> = Vec::new();
            let mut i: usize = 0;
            while i < items.len()
                invariant
                    i <= items@.len(),
                    s is Tuple,
                    *items == s->Tuple_0,
                    encoded@.len() == i as int,
                    forall|k: int|
                        0 <= k < i ==> encoded@[k]@ == encode_model(schema_model_of_box(
                            #[trigger] items@[k],
                        )),
                decreases items@.len() - i,
            {
                proof {
                    assert(decreases_to!(*s => s->Tuple_0));
                    assert(decreases_to!(*items => items[i as int]));
                }
                let ei = encode_schema(&*items[i]);
                encoded.push(ei);
                i = i + 1;
            }
            let r = tagged_value("Tuple", arr_value(encoded));
            proof {
                let em = encode_model(s@);
                let js_e = ((em->Obj_0)[1].1)->Arr_0;
                assert(crate::json::arr_model(encoded@) =~= js_e);
                assert(r@->Obj_0 =~= em->Obj_0);
            }
            r
        },
    }
}

/// The model of a boxed schema tree.
pub open spec fn schema_model_of_box(b: Box<TypeSchema>) -> crate::types::SchemaModel {
    crate::types::schema_model(*b)
}

/// Renders one struct field in its wire form.
fn encode_field_value(f: &FieldSchema) -> (r: JsonValue)
    ensures
        r@ == encode_field(f@),
    decreases *f,
{
    proof {
        assert(decreases_to!(*f => f.field_type));
    }
    let inner = encode_schema(&*f.field_type);
    let r = obj3_value(
        "field_name",
        JsonValue::Str(f.field_name.clone()),
        "field_type",
        inner,
        "optional",
        JsonValue::Bool(f.optional),
    );
    proof {
        assert(r@->Obj_0 =~= encode_field(f@)->Obj_0);
    }
    r
}

/// Renders one enum variant in its wire form.
fn encode_variant_value(v: &VariantSchema) -> (r: JsonValue)
    ensures
        r@ == encode_variant(v@),
    decreases *v,
{
    let inner = match &v.inner_schema {
        Some(b) => {
            proof {
                assert(decreases_to!(*v => v.inner_schema));
                assert(decreases_to!(v.inner_schema => v.inner_schema->0));
            }
            encode_schema(&**b)
        },
        None => JsonValue::Null,
    };
    let r = obj2_value("variant_name", JsonValue::Str(v.variant_name.clone()), "inner_schema", inner);
    proof {
        assert(r@->Obj_0 =~= encode_variant(v@)->Obj_0);
    }
    r
}

/// Decoding a list of encoded schema trees gives the trees back.
proof fn lemma_decode_encode_schema_list(js: Seq<JsonModel>, ms: Seq<SchemaModel>)
    requires
        js.len() == ms.len(),
        forall|i: int| 0 <= i < ms.len() ==> js[i] == encode_model(#[trigger] ms[i]),
    ensures
        decode_schema_list(js) == Some(ms),
    decreases ms,
{
    if ms.len() == 0 {
        assert(ms =~= Seq::<SchemaModel>::empty());
    } else {
        lemma_decode_encode(ms[0]);
        lemma_decode_encode_schema_list(js.drop_first(), ms.drop_first());
        assert(seq![ms[0]] + ms.drop_first() =~= ms);
    }
}

/// The models of a list of fields, field by field.
pub open spec fn field_models(fields: Seq<FieldSchema>) -> Seq<FieldModel> {
    Seq::new(fields.len(), |k: int| fields[k]@)
}

/// The models of a list of variants, variant by variant.
pub open spec fn variant_models(variants: Seq<VariantSchema>) -> Seq<VariantModel> {
    Seq::new(variants.len(), |k: int| variants[k]@)
}

/// The models of a list of boxed schema trees.
pub open spec fn box_schema_models(items: Seq<Box<TypeSchema>>) -> Seq<SchemaModel> {
    Seq::new(items.len(), |k: int| schema_model_of_box(items[k]))
}

/// Elementwise successful decoding decodes the whole list.
proof fn lemma_field_list_complete(js: Seq<JsonModel>, fs: Seq<FieldModel>)
    requires
        js.len() == fs.len(),
        forall|k: int| 0 <= k < js.len() ==> decode_field(#[trigger] js[k]) == Some(fs[k]),
    ensures
        decode_field_list(js) == Some(fs),
    decreases js.len(),
{
    if js.len() == 0 {
        assert(fs =~= Seq::<FieldModel>::empty());
    } else {
        lemma_field_list_complete(js.drop_first(), fs.drop_first());
        assert(seq![fs[0]] + fs.drop_first() =~= fs);
    }
}

/// One element that does not decode stops the whole list.
proof fn lemma_field_list_fails(js: Seq<JsonModel>, i: int)
    requires
        0 <= i < js.len(),
        decode_field(js[i]) is None,
    ensures
        decode_field_list(js) is None,
    decreases i,
{
    if i > 0 {
        lemma_field_list_fails(js.drop_first(), i - 1);
    }
}

/// Elementwise successful decoding decodes the whole list.
proof fn lemma_variant_list_complete(js: Seq<JsonModel>, vs: Seq<VariantModel>)
    requires
        js.len() == vs.len(),
        forall|k: int| 0 <= k < js.len() ==> decode_variant(#[trigger] js[k]) == Some(vs[k]),
    ensures
        decode_variant_list(js) == Some(vs),
    decreases js.len(),
{
    if js.len() == 0 {
        assert(vs =~= Seq::<VariantModel>::empty());
    } else {
        lemma_variant_list_complete(js.drop_first(), vs.drop_first());
        assert(seq![vs[0]] + vs.drop_first() =~= vs);
    }
}

/// One element that does not decode stops the whole list.
proof fn lemma_variant_list_fails(js: Seq<JsonModel>, i: int)
    requires
        0 <= i < js.len(),
        decode_variant(js[i]) is None,
    ensures
        decode_variant_list(js) is None,
    decreases i,
{
    if i > 0 {
        lemma_variant_list_fails(js.drop_first(), i - 1);
    }
}

/// Elementwise successful decoding decodes the whole list.
proof fn lemma_schema_list_complete(js: Seq<JsonModel>, ms: Seq<SchemaModel>)
    requires
        js.len() == ms.len(),
        forall|k: int| 0 <= k < js.len() ==> decode_model(#[trigger] js[k]) == Some(ms[k]),
    ensures
        decode_schema_list(js) == Some(ms),
    decreases js.len(),
{
    if js.len() == 0 {
        assert(ms =~= Seq::<SchemaModel>::empty());
    } else {
        lemma_schema_list_complete(js.drop_first(), ms.drop_first());
        assert(seq![ms[0]] + ms.drop_first() =~= ms);
    }
}

/// One element that does not decode stops the whole list.
proof fn lemma_schema_list_fails(js: Seq<JsonModel>, i: int)
    requires
        0 <= i < js.len(),
        decode_model(js[i]) is None,
    ensures
        decode_schema_list(js) is None,
    decreases i,
{
    if i > 0 {
        lemma_schema_list_fails(js.drop_first(), i - 1);
    }
}

/// Decodes every element of a wire array as a struct field.
fn decode_struct_fields(items: &Vec<JsonValue>) -> (r: Option<Vec<FieldSchema>>)
    ensures
        (match r {
            Some(fields) => decode_field_list(crate::json::arr_model(items@)) == Some(
                field_models(fields@),
            ),
            None => decode_field_list(crate::json::arr_model(items@)) is None,
        }),
    decreases *items,
{
    let ghost js = crate::json::arr_model(items@);
    let mut fields: Vec<FieldSchema> = Vec::new();
    let mut i: usize = 0;
    while i < items.len()
        invariant
            i <= items@.len(),
            js == crate::json::arr_model(items@),
            js.len() == items@.len(),
            fields@.len() == i as int,
            forall|k: int| 0 <= k < i ==> decode_field(js[k]) == Some(#[trigger] fields@[k]@),
        decreases items@.len() - i,
    {
        proof {
            assert(decreases_to!(*items => items[i as int]));
        }
        match decode_field_value(&items[i]) {
            Some(f) => {
                fields.push(f);
            },
            None => {
                proof {
                    lemma_field_list_fails(js, i as int);
                }
                return None;
            },
        }
        i = i + 1;
    }
    proof {
        assert forall|k: int| 0 <= k < js.len() implies decode_field(#[trigger] js[k]) == Some(
            field_models(fields@)[k],
        ) by {
            assert(decode_field(js[k]) == Some(fields@[k]@));
        }
        lemma_field_list_complete(js, field_models(fields@));
    }
    Some(fields)
}

/// Decodes every element of a wire array as an enum variant.
fn decode_variant_items(items: &Vec<JsonValue>) -> (r: Option<Vec<VariantSchema>>)
    ensures
        (match r {
            Some(variants) => decode_variant_list(crate::json::arr_model(items@)) == Some(
                variant_models(variants@),
            ),
            None => decode_variant_list(crate::json::arr_model(items@)) is None,
        }),
    decreases *items,
{
    let ghost js = crate::json::arr_model(items@);
    let mut variants: Vec<VariantSchema> = Vec::new();
    let mut i: usize = 0;
    while i < items.len()
        invariant
            i <= items@.len(),
            js == crate::json::arr_model(items@),
            js.len() == items@.len(),
            variants@.len() == i as int,
            forall|k: int| 0 <= k < i ==> decode_variant(js[k]) == Some(#[trigger] variants@[k]@),
        decreases items@.len() - i,
    {
        proof {
            assert(decreases_to!(*items => items[i as int]));
        }
        match decode_variant_value(&items[i]) {
            Some(v) => {
                variants.push(v);
            },
            None => {
                proof {
                    lemma_variant_list_fails(js, i as int);
                }
                return None;
            },
        }
        i = i + 1;
    }
    proof {
        assert forall|k: int| 0 <= k < js.len() implies decode_variant(#[trigger] js[k]) == Some(
            variant_models(variants@)[k],
        ) by {
            assert(decode_variant(js[k]) == Some(variants@[k]@));
        }
        lemma_variant_list_complete(js, variant_models(variants@));
    }
    Some(variants)
}

/// Decodes every element of a wire array as a schema tree.
fn decode_tuple_items(items: &Vec<JsonValue>) -> (r: Option<Vec<Box<TypeSchema>>>)
    ensures
        (match r {
            Some(out) => decode_schema_list(crate::json::arr_model(items@)) == Some(
                box_schema_models(out@),
            ),
            None => decode_schema_list(crate::json::arr_model(items@)) is None,
        }),
    decreases *items,
{
    let ghost js = crate::json::arr_model(items@);
    let mut out: Vec<Box<TypeSchema>> = Vec::new();
    let mut i: usize = 0;
    while i < items.len()
        invariant
            i <= items@.len(),
            js == crate::json::arr_model(items@),
            js.len() == items@.len(),
            out@.len() == i as int,
            forall|k: int|
                0 <= k < i ==> decode_model(js[k]) == Some(schema_model_of_box(
                    #[trigger] out@[k],
                )),
        decreases items@.len() - i,
    {
        proof {
            assert(decreases_to!(*items => items[i as int]));
        }
        match decode_schema(&items[i]) {
            Some(s) => {
                out.push(Box::new(s));
            },
            None => {
                proof {
                    lemma_schema_list_fails(js, i as int);
                }
                return None;
            },
        }
        i = i + 1;
    }
    proof {
        assert forall|k: int| 0 <= k < js.len() implies decode_model(#[trigger] js[k]) == Some(
            box_schema_models(out@)[k],
        ) by {
            assert(decode_model(js[k]) == Some(schema_model_of_box(out@[k])));
        }
        lemma_schema_list_complete(js, box_schema_models(out@));
    }
    Some(out)
}

/// Reads one struct field out of a wire value.
fn decode_field_value(j: &JsonValue) -> (r: Option<FieldSchema>)
    ensures
        (match r {
            Some(f) => decode_field(j@) == Some(f@),
            None => decode_field(j@) is None,
        }),
    decreases *j,
{
    let name = match j.get("field_name") {
        Some(t) => match t.as_str() {
            Some(x) => x,
            None => {
                return None;
            },
        },
        None => {
            return None;
        },
    };
    let ft = match j.get("field_type") {
        Some(w) => w,
        None => {
            return None;
        },
    };
    let optional = match j.get("optional") {
        Some(t) => match t.as_bool() {
            Some(b) => b,
            None => {
                return None;
            },
        },
        None => {
            return None;
        },
    };
    match decode_schema(ft) {
        Some(m) => Some(
            FieldSchema { field_name: name.clone(), field_type: Box::new(m), optional },
        ),
        None => None,
    }
}

/// Reads one enum variant out of a wire value.
fn decode_variant_value(j: &JsonValue) -> (r: Option<VariantSchema>)
    ensures
        (match r {
            Some(v) => decode_variant(j@) == Some(v@),
            None => decode_variant(j@) is None,
        }),
    decreases *j,
{
    let name = match j.get("variant_name") {
        Some(t) => match t.as_str() {
            Some(x) => x,
            None => {
                return None;
            },
        },
        None => {
            return None;
        },
    };
    let inner_v = match j.get("inner_schema") {
        Some(w) => w,
        None => {
            return None;
        },
    };
    if inner_v.is_null() {
        Some(VariantSchema { variant_name: name.clone(), inner_schema: None })
    } else {
        match decode_schema(inner_v) {
            Some(m) => Some(
                VariantSchema { variant_name: name.clone(), inner_schema: Some(Box::new(m)) },
            ),
            None => None,
        }
    }
}

/// Reads a schema tree out of its wire form; `None` where the value is not a
/// well-formed wire node.
pub fn decode_schema(v: &JsonValue) -> (r: Option<TypeSchema>)
    ensures
        (match r {
            Some(s) => decode_model(v@) == Some(s@),
            None => decode_model(v@) is None,
        }),
    decreases *v,
{
    let kind_v = match v.get("kind") {
        Some(k) => k,
        None => {
            return None;
        },
    };
    let value = match v.get("value") {
        Some(w) => w,
        None => {
            return None;
        },
    };
    let kind = match kind_v.as_str() {
        Some(s) => s,
        None => {
            return None;
        },
    };
    if crate::text::str_eq(kind.as_str(), "Primitive") {
        match value.as_str() {
            Some(n) => Some(TypeSchema::Primitive(n.clone())),
            None => None,
        }
    } else if crate::text::str_eq(kind.as_str(), "Opaque") {
        match value.as_str() {
            Some(n) => Some(TypeSchema::Opaque(n.clone())),
            None => None,
        }
    } else if crate::text::str_eq(kind.as_str(), "Struct") {
        let tn = match value.get("type_name") {
            Some(t) => match t.as_str() {
                Some(x) => x,
                None => {
                    return None;
                },
            },
            None => {
                return None;
            },
        };
        let items = match value.get("fields") {
            Some(fv) => match fv.as_array() {
                Some(a) => a,
                None => {
                    return None;
                },
            },
            None => {
                return None;
            },
        };
        match decode_struct_fields(items) {
            Some(fields) => {
                let r = TypeSchema::Struct(StructSchema { ty_name: tn.clone(), fields });
                proof {
                    assert((r@)->Struct_0.fields =~= field_models(r->Struct_0.fields@));
                }
                Some(r)
            },
            None => None,
        }
    } else if crate::text::str_eq(kind.as_str(), "Enum") {
        let tn = match value.get("type_name") {
            Some(t) => match t.as_str() {
                Some(x) => x,
                None => {
                    return None;
                },
            },
            None => {
                return None;
            },
        };
        let items = match value.get("variants") {
            Some(fv) => match fv.as_array() {
                Some(a) => a,
                None => {
                    return None;
                },
            },
            None => {
                return None;
            },
        };
        match decode_variant_items(items) {
            Some(variants) => {
                let r = TypeSchema::Enum(EnumSchema { ty_name: tn.clone(), variants });
                proof {
                    assert((r@)->Enum_0.variants =~= variant_models(r->Enum_0.variants@));
                }
                Some(r)
            },
            None => None,
        }
    } else if crate::text::str_eq(kind.as_str(), "Container") {
        let ct = match value.get("container_type") {
            Some(t) => match t.as_str() {
                Some(x) => x,
                None => {
                    return None;
                },
            },
            None => {
                return None;
            },
        };
        let inner_v = match value.get("inner_type") {
            Some(w) => w,
            None => {
                return None;
            },
        };
        match decode_schema(inner_v) {
            Some(im) => Some(
                TypeSchema::Container { container_type: ct.clone(), inner_type: Box::new(im) },
            ),
            None => None,
        }
    } else if crate::text::str_eq(kind.as_str(), "Tuple") {
        let items = match value.as_array() {
            Some(a) => a,
            None => {
                return None;
            },
        };
        match decode_tuple_items(items) {
            Some(out) => {
                let r = TypeSchema::Tuple(out);
                proof {
                    assert((r@)->Tuple_0 =~= box_schema_models(r->Tuple_0@));
                }
                Some(r)
            },
            None => None,
        }
    } else {
        None
    }
}

} // verus!
