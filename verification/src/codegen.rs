//! The client emitter: assembles generated client source text from the raw
//! metadata document, one typed call wrapper per function and one definition
//! per type, with a best-effort endpoint hint for each wrapper.

use vstd::prelude::*;
use vstd::string::StringExecFns;
use crate::json::{arr_model, JsonModel, JsonValue};
use crate::text::{contains_seq, dec_rep, kebab, kebab_of, lower_of, lowercase, str_contains, str_eq};
use crate::typemap::{builtin_primitive, derive_header, is_builtin_primitive, rust_type_of};

verus! {

/// Whether the endpoint map holds the URI.
pub open spec fn ep_map_has(map: Seq<(Seq<char>, Seq<Seq<char>>)>, uri: Seq<char>) -> bool {
    exists|i: int| 0 <= i < map.len() && map[i].0 == uri
}

/// What one discovery entry contributes to the endpoint map: its URI and its
/// string verbs; an entry without a string URI contributes nothing.
pub open spec fn ep_map_entry(j: JsonModel) -> Option<(Seq<char>, Seq<Seq<char>>)> {
    match j.get("uri"@) {
        Some(JsonModel::Str(uri)) => Some(
            (
                uri,
                match j.get("methods"@) {
                    Some(JsonModel::Arr(items)) => crate::client::str_items(items),
                    _ => Seq::empty(),
                },
            ),
        ),
        _ => None,
    }
}

/// Replaces the pair under a URI, or appends a new one.
pub open spec fn ep_map_insert(
    map: Seq<(Seq<char>, Seq<Seq<char>>)>,
    uri: Seq<char>,
    methods: Seq<Seq<char>>,
) -> Seq<(Seq<char>, Seq<Seq<char>>)>
    decreases map.len(),
{
    if map.len() == 0 {
        seq![(uri, methods)]
    } else if map[0].0 == uri {
        seq![(uri, methods)] + map.drop_first()
    } else {
        seq![map[0]] + ep_map_insert(map.drop_first(), uri, methods)
    }
}

/// The endpoint map after the first `n` discovery entries.
pub open spec fn ep_map_state(entries: Seq<JsonModel>, n: int) -> Seq<(Seq<char>, Seq<Seq<char>>)>
    decreases n,
{
    if n <= 0 {
        Seq::empty()
    } else {
        let prev = ep_map_state(entries, n - 1);
        match ep_map_entry(entries[n - 1]) {
            Some((uri, methods)) => ep_map_insert(prev, uri, methods),
            None => prev,
        }
    }
}

/// The texts of a list of strings, in order.
pub open spec fn strs_of(v: Vec<String>) -> Seq<Seq<char>> {
    Seq::new(v.len() as nat, |i: int| v[i]@)
}

/// The models of a built endpoint map.
pub open spec fn ep_map_models(map: Seq<(String, Vec<String>)>) -> Seq<(Seq<char>, Seq<Seq<char>>)> {
    Seq::new(map.len(), |i: int| (map[i].0@, strs_of(map[i].1)))
}

/// Builds the endpoint map from the raw discovery entries: one pair per URI,
/// a later entry under the same URI replacing the earlier one.
pub fn build_endpoint_map(values: &Vec<JsonValue>) -> (r: Vec<(String, Vec<String>)>)
    ensures
        ep_map_models(r@) == ep_map_state(arr_model(values@), values@.len() as int),
{
    let ghost entries = arr_model(values@);
    let mut map: Vec<(String, Vec<String>)> = Vec::new();
    let mut i: usize = 0;
    while i < values.len()
        invariant
            i <= values@.len(),
            entries == arr_model(values@),
            entries.len() == values@.len(),
            ep_map_models(map@) == ep_map_state(entries, i as int),
        decreases values@.len() - i,
    {
        let entry = &values[i];
        match entry.get("uri") {
            Some(uv) => {
                match uv.as_str() {
                    Some(uri) => {
                        let mut methods: Vec<String> = Vec::new();
                        match entry.get("methods") {
                            Some(mv) => {
                                match mv.as_array() {
                                    Some(items) => {
                                        let ghost js = arr_model(items@);
                                        let mut k: usize = 0;
                                        while k < items.len()
                                            invariant
                                                k <= items@.len(),
                                                js == arr_model(items@),
                                                js.len() == items@.len(),
                                                strs_of(methods) =~= crate::client::str_items(
                                                    js.take(k as int),
                                                ),
                                            decreases items@.len() - k,
                                        {
                                            proof {
                                                assert(js.take(k + 1).drop_last() =~= js.take(
                                                    k as int,
                                                ));
                                                assert(js.take(k + 1).last() == js[k as int]);
                                            }
                                            match items[k].as_str() {
                                                Some(s) => {
                                                    methods.push(s.clone());
                                                },
                                                None => {},
                                            }
                                            proof {
                                                assert(strs_of(methods) =~= crate::client::str_items(
                                                    js.take(k + 1),
                                                ));
                                            }
                                            k = k + 1;
                                        }
                                        proof {
                                            assert(js.take(js.len() as int) =~= js);
                                            assert(strs_of(methods) == crate::client::str_items(js));
                                        }
                                    },
                                    None => {
                                        proof {
                                            assert(strs_of(methods) =~= Seq::<Seq<char>>::empty());
                                        }
                                    },
                                }
                            },
                            None => {
                                proof {
                                    assert(strs_of(methods) =~= Seq::<Seq<char>>::empty());
                                }
                            },
                        }
                        map_insert(&mut map, uri.clone(), methods);
                    },
                    None => {},
                }
            },
            None => {},
        }
        proof {
            assert(ep_map_models(map@) =~= ep_map_state(entries, i + 1));
        }
        i = i + 1;
    }
    map
}

/// Replaces the entry under a URI in the built map, or appends one.
fn map_insert(map: &mut Vec<(String, Vec<String>)>, uri: String, methods: Vec<String>)
    ensures
        ep_map_models(final(map)@) == ep_map_insert(
            ep_map_models(old(map)@),
            uri@,
            strs_of(methods),
        ),
{
    let ghost m0 = ep_map_models(map@);
    let ghost mv = strs_of(methods);
    let mut i: usize = 0;
    while i < map.len()
        invariant
            i <= map@.len(),
            map@ == old(map)@,
            mv == strs_of(methods),
            m0 == ep_map_models(map@),
            m0.len() == map@.len(),
            forall|j: int| 0 <= j < i ==> m0[j].0 != uri@,
        decreases map@.len() - i,
    {
        if str_eq(map[i].0.as_str(), uri.as_str()) {
            let ghost idx = i as int;
            map.set(i, (uri, methods));
            proof {
                lemma_ep_map_insert_at(m0, uri@, mv, idx);
                assert(ep_map_models(map@) =~= m0.update(idx, (uri@, mv)));
            }
            return ;
        }
        i = i + 1;
    }
    map.push((uri, methods));
    proof {
        lemma_ep_map_insert_missing(m0, uri@, mv);
        assert(ep_map_models(map@) =~= m0 + seq![(uri@, mv)]);
    }
}

/// Inserting a URI that sits at position `i` replaces that pair in place.
proof fn lemma_ep_map_insert_at(
    map: Seq<(Seq<char>, Seq<Seq<char>>)>,
    uri: Seq<char>,
    methods: Seq<Seq<char>>,
    i: int,
)
    requires
        0 <= i < map.len(),
        map[i].0 == uri,
        forall|j: int| 0 <= j < i ==> map[j].0 != uri,
    ensures
        ep_map_insert(map, uri, methods) =~= map.update(i, (uri, methods)),
    decreases i,
{
    if i == 0 {
        assert(ep_map_insert(map, uri, methods) =~= map.update(0, (uri, methods)));
    } else {
        lemma_ep_map_insert_at(map.drop_first(), uri, methods, i - 1);
        assert(map.drop_first().update(i - 1, (uri, methods)) =~= map.update(
            i,
            (uri, methods),
        ).drop_first());
        assert(ep_map_insert(map, uri, methods) =~= seq![map[0]] + map.drop_first().update(
            i - 1,
            (uri, methods),
        ));
    }
}

/// Inserting a URI the map does not hold appends it.
proof fn lemma_ep_map_insert_missing(
    map: Seq<(Seq<char>, Seq<Seq<char>>)>,
    uri: Seq<char>,
    methods: Seq<Seq<char>>,
)
    requires
        forall|j: int| 0 <= j < map.len() ==> map[j].0 != uri,
    ensures
        ep_map_insert(map, uri, methods) =~= map + seq![(uri, methods)],
    decreases map.len(),
{
    if map.len() > 0 {
        lemma_ep_map_insert_missing(map.drop_first(), uri, methods);
        assert(ep_map_insert(map, uri, methods) =~= seq![map[0]] + (map.drop_first() + seq![
            (uri, methods),
        ]));
    }
}

/// Whether a map key matches the function name by any of the three
/// substring tests: the raw name, its kebab form, or its lower-case form.
pub open spec fn key_matches(key: Seq<char>, name: Seq<char>) -> bool {
    contains_seq(key, name) || contains_seq(key, kebab_of(name)) || contains_seq(
        key,
        lower_of(name),
    )
}

/// The first map key that matches the name by substring, in key order.
pub open spec fn first_key_match(keys: Seq<Seq<char>>, name: Seq<char>) -> Option<Seq<char>>
    decreases keys.len(),
{
    if keys.len() == 0 {
        None
    } else if key_matches(keys[0], name) {
        Some(keys[0])
    } else {
        first_key_match(keys.drop_first(), name)
    }
}

proof fn lemma_first_key_match_skip(keys: Seq<Seq<char>>, name: Seq<char>, i: int)
    requires
        0 <= i <= keys.len(),
        forall|j: int| 0 <= j < i ==> !key_matches(#[trigger] keys[j], name),
    ensures
        first_key_match(keys, name) == first_key_match(keys.skip(i), name),
    decreases i,
{
    if i > 0 {
        lemma_first_key_match_skip(keys, name, i - 1);
        assert(keys.skip(i - 1).drop_first() =~= keys.skip(i));
        assert(keys.skip(i - 1)[0] == keys[i - 1]);
    } else {
        assert(keys.skip(0) =~= keys);
    }
}

/// The keys of an endpoint map, in order.
pub open spec fn ep_map_keys(map: Seq<(Seq<char>, Seq<Seq<char>>)>) -> Seq<Seq<char>> {
    Seq::new(map.len(), |i: int| map[i].0)
}

/// Where the emitter resolves a function among the mapped endpoints: the
/// first key passing a substring test, then the three fixed candidate paths,
/// then the first key as a best-effort fallback; nothing only when the map
/// is empty.
pub open spec fn emitter_resolve(name: Seq<char>, map: Seq<(Seq<char>, Seq<Seq<char>>)>) -> Option<
    Seq<char>,
> {
    let keys = ep_map_keys(map);
    match first_key_match(keys, name) {
        Some(u) => Some(u),
        None => {
            let c1 = "/api/"@ + kebab_of(name);
            let c2 = "/api/auth/"@ + kebab_of(name);
            let c3 = "/auth/"@ + kebab_of(name);
            if ep_map_has(map, c1) {
                Some(c1)
            } else if ep_map_has(map, c2) {
                Some(c2)
            } else if ep_map_has(map, c3) {
                Some(c3)
            } else if map.len() > 0 {
                Some(map[0].0)
            } else {
                None
            }
        },
    }
}

/// Whether the built map holds a pair under the URI.
fn map_has(map: &Vec<(String, Vec<String>)>, uri: &str) -> (r: bool)
    ensures
        r == ep_map_has(ep_map_models(map@), uri@),
{
    let mut i: usize = 0;
    while i < map.len()
        invariant
            i <= map@.len(),
            forall|k: int| 0 <= k < i ==> ep_map_models(map@)[k].0 != uri@,
        decreases map@.len() - i,
    {
        if str_eq(map[i].0.as_str(), uri) {
            assert(ep_map_models(map@)[i as int].0 == uri@);
            return true;
        }
        i = i + 1;
    }
    false
}

/// Finds the endpoint hint for a function against the built map, by the
/// emitter's precedence.
pub fn find_endpoint_for_function(function_name: &str, endpoints: &Vec<(String, Vec<String>)>) -> (r:
    Option<String>)
    ensures
        (match r {
            Some(u) => emitter_resolve(function_name@, ep_map_models(endpoints@)) == Some(u@),
            None => emitter_resolve(function_name@, ep_map_models(endpoints@)) is None,
        }),
{
    let ghost map = ep_map_models(endpoints@);
    let ghost keys = ep_map_keys(map);
    let kb = kebab(function_name);
    let low = lowercase(function_name);
    let mut i: usize = 0;
    while i < endpoints.len()
        invariant
            i <= endpoints@.len(),
            map == ep_map_models(endpoints@),
            keys == ep_map_keys(map),
            keys.len() == endpoints@.len(),
            kb@ == kebab_of(function_name@),
            low@ == lower_of(function_name@),
            forall|j: int| 0 <= j < i ==> !key_matches(#[trigger] keys[j], function_name@),
        decreases endpoints@.len() - i,
    {
        let uri = &endpoints[i].0;
        if str_contains(uri.as_str(), function_name) || str_contains(uri.as_str(), kb.as_str())
            || str_contains(uri.as_str(), low.as_str()) {
            proof {
                lemma_first_key_match_skip(keys, function_name@, i as int);
                assert(keys.skip(i as int)[0] == keys[i as int]);
            }
            return Some(uri.clone());
        }
        i = i + 1;
    }
    proof {
        lemma_first_key_match_skip(keys, function_name@, keys.len() as int);
    }
    let mut c1 = String::from_str("/api/");
    c1.append(kb.as_str());
    if map_has(endpoints, c1.as_str()) {
        return Some(c1);
    }
    let mut c2 = String::from_str("/api/auth/");
    c2.append(kb.as_str());
    if map_has(endpoints, c2.as_str()) {
        return Some(c2);
    }
    let mut c3 = String::from_str("/auth/");
    c3.append(kb.as_str());
    if map_has(endpoints, c3.as_str()) {
        return Some(c3);
    }
    if endpoints.len() > 0 {
        return Some(endpoints[0].0.clone());
    }
    None
}

/// Renders the fallback wrapper definition for a name.
fn generate_basic_type(name: &str) -> (r: String)
    ensures
        r@ == crate::typemap::basic_type_def_of(name@),
{
    let mut out = String::from_str(
        "#[derive(Debug, Clone, serde::Serialize, serde::Deserialize)]\n",
    );
    out.append("pub struct ");
    out.append(name);
    out.append("(pub serde_json::Value);\n");
    proof {
        assert(out@ =~= crate::typemap::basic_type_def_of(name@));
    }
    out
}

/// The definition text of a single-field wrapper around a built-in.
pub open spec fn newtype_text(name: Seq<char>, prim: Seq<char>) -> Seq<char> {
    derive_header() + "pub struct "@ + name + "(pub "@ + prim + ");\n"@
}

/// What a primitive schema emits for a requested name: nothing when the
/// name is the primitive itself, a newtype around a known built-in, or the
/// fallback wrapper.
pub open spec fn primitive_text_of(name: Seq<char>, schema: JsonModel) -> Seq<char> {
    match schema.get("value"@) {
        Some(JsonModel::Str(v)) => {
            if v == name {
                Seq::empty()
            } else if v == "String"@ {
                if name == "String"@ {
                    Seq::empty()
                } else {
                    newtype_text(name, "String"@)
                }
            } else if v == "i32"@ {
                newtype_text(name, "i32"@)
            } else if v == "i64"@ {
                newtype_text(name, "i64"@)
            } else if v == "bool"@ {
                newtype_text(name, "bool"@)
            } else if v == "f32"@ {
                newtype_text(name, "f32"@)
            } else if v == "f64"@ {
                newtype_text(name, "f64"@)
            } else {
                crate::typemap::basic_type_def_of(name)
            }
        },
        _ => crate::typemap::basic_type_def_of(name),
    }
}

/// Renders what a primitive schema emits for a requested name.
fn generate_primitive_type_from_schema(name: &str, schema: &JsonValue) -> (r: String)
    ensures
        r@ == primitive_text_of(name@, schema@),
{
    let v = match schema.get("value") {
        Some(w) => match w.as_str() {
            Some(s) => s,
            None => {
                return generate_basic_type(name);
            },
        },
        None => {
            return generate_basic_type(name);
        },
    };
    if str_eq(v.as_str(), name) {
        return String::new();
    }
    let prim: &str = if str_eq(v.as_str(), "String") {
        if str_eq(name, "String") {
            return String::new();
        }
        "String"
    } else if str_eq(v.as_str(), "i32") {
        "i32"
    } else if str_eq(v.as_str(), "i64") {
        "i64"
    } else if str_eq(v.as_str(), "bool") {
        "bool"
    } else if str_eq(v.as_str(), "f32") {
        "f32"
    } else if str_eq(v.as_str(), "f64") {
        "f64"
    } else {
        return generate_basic_type(name);
    };
    let mut out = String::from_str(
        "#[derive(Debug, Clone, serde::Serialize, serde::Deserialize)]\n",
    );
    out.append("pub struct ");
    out.append(name);
    out.append("(pub ");
    out.append(prim);
    out.append(");\n");
    proof {
        assert(out@ =~= newtype_text(name@, prim@));
    }
    out
}

/// The line one field contributes to an emitted struct; a field without a
/// string name or without a type contributes nothing.
pub open spec fn shared_field_line(j: JsonModel) -> Seq<char> {
    match (j.get("field_name"@), j.get("field_type"@)) {
        (Some(JsonModel::Str(fname)), Some(ft)) => {
            if crate::client::opt_bool(j.get("optional"@)) {
                "    pub "@ + fname + ": Option<"@ + rust_type_of(ft) + ">,\n"@
            } else {
                "    pub "@ + fname + ": "@ + rust_type_of(ft) + ",\n"@
            }
        },
        _ => Seq::empty(),
    }
}

/// The lines of an emitted struct body, in field order.
pub open spec fn shared_field_lines(items: Seq<JsonModel>) -> Seq<char>
    decreases items.len(),
{
    if items.len() == 0 {
        Seq::empty()
    } else {
        shared_field_lines(items.drop_last()) + shared_field_line(items.last())
    }
}

/// The field items under a schema's payload; anything else counts as none.
pub open spec fn payload_list_of(schema: JsonModel, key: Seq<char>) -> Seq<JsonModel> {
    match schema.get("value"@) {
        Some(value) => match value.get(key) {
            Some(JsonModel::Arr(items)) => items,
            _ => Seq::empty(),
        },
        None => Seq::empty(),
    }
}

/// What a struct schema emits: a record under the requested name with one
/// member per well-formed field.
pub open spec fn shared_struct_text(name: Seq<char>, schema: JsonModel) -> Seq<char> {
    derive_header() + "pub struct "@ + name + " {\n"@ + shared_field_lines(
        payload_list_of(schema, "fields"@),
    ) + "}\n"@
}

/// Renders what a struct schema emits for a requested name.
fn generate_struct_type_from_schema(name: &str, schema: &JsonValue) -> (r: String)
    ensures
        r@ == shared_struct_text(name@, schema@),
{
    let mut out = String::from_str(
        "#[derive(Debug, Clone, serde::Serialize, serde::Deserialize)]\n",
    );
    out.append("pub struct ");
    out.append(name);
    out.append(" {\n");
    let ghost head = derive_header() + "pub struct "@ + name@ + " {\n"@;
    let empty_items: Vec<JsonValue> = Vec::new();
    let items: &Vec<JsonValue> = match schema.get("value") {
        Some(value) => match value.get("fields") {
            Some(fv) => match fv.as_array() {
                Some(a) => a,
                None => &empty_items,
            },
            None => &empty_items,
        },
        None => &empty_items,
    };
    let ghost js = arr_model(items@);
    proof {
        assert(js =~= payload_list_of(schema@, "fields"@));
        assert(out@ =~= head + shared_field_lines(js.take(0)));
    }
    let mut i: usize = 0;
    while i < items.len()
        invariant
            i <= items@.len(),
            js == arr_model(items@),
            js.len() == items@.len(),
            out@ == head + shared_field_lines(js.take(i as int)),
        decreases items@.len() - i,
    {
        proof {
            assert(js.take(i + 1).drop_last() =~= js.take(i as int));
            assert(js.take(i + 1).last() == js[i as int]);
        }
        let fv = &items[i];
        match fv.get("field_name") {
            Some(t) => {
                match t.as_str() {
                    Some(fname) => {
                        match fv.get("field_type") {
                            Some(ft) => {
                                let ftype = crate::typemap::get_field_type_string(ft);
                                let optional = match fv.get("optional") {
                                    Some(o) => match o.as_bool() {
                                        Some(b) => b,
                                        None => false,
                                    },
                                    None => false,
                                };
                                if optional {
                                    out.append("    pub ");
                                    out.append(fname.as_str());
                                    out.append(": Option<");
                                    out.append(ftype.as_str());
                                    out.append(">,\n");
                                } else {
                                    out.append("    pub ");
                                    out.append(fname.as_str());
                                    out.append(": ");
                                    out.append(ftype.as_str());
                                    out.append(",\n");
                                }
                            },
                            None => {},
                        }
                    },
                    None => {},
                }
            },
            None => {},
        }
        proof {
            assert(out@ =~= head + shared_field_lines(js.take(i + 1)));
        }
        i = i + 1;
    }
    out.append("}\n");
    proof {
        assert(js.take(js.len() as int) =~= js);
        assert(out@ =~= shared_struct_text(name@, schema@));
    }
    out
}

/// The line one variant contributes to an emitted enum; a variant without a
/// string name contributes nothing.
pub open spec fn shared_variant_line(j: JsonModel) -> Seq<char> {
    match j.get("variant_name"@) {
        Some(JsonModel::Str(vname)) => "    "@ + vname + ",\n"@,
        _ => Seq::empty(),
    }
}

/// The lines of an emitted enum body, in variant order.
pub open spec fn shared_variant_lines(items: Seq<JsonModel>) -> Seq<char>
    decreases items.len(),
{
    if items.len() == 0 {
        Seq::empty()
    } else {
        shared_variant_lines(items.drop_last()) + shared_variant_line(items.last())
    }
}

/// What an enum schema emits: an enumeration of its well-formed variants.
pub open spec fn shared_enum_text(name: Seq<char>, schema: JsonModel) -> Seq<char> {
    derive_header() + "pub enum "@ + name + " {\n"@ + shared_variant_lines(
        payload_list_of(schema, "variants"@),
    ) + "}\n"@
}

/// Renders what an enum schema emits for a requested name.
fn generate_enum_type_from_schema(name: &str, schema: &JsonValue) -> (r: String)
    ensures
        r@ == shared_enum_text(name@, schema@),
{
    let mut out = String::from_str(
        "#[derive(Debug, Clone, serde::Serialize, serde::Deserialize)]\n",
    );
    out.append("pub enum ");
    out.append(name);
    out.append(" {\n");
    let ghost head = derive_header() + "pub enum "@ + name@ + " {\n"@;
    let empty_items: Vec<JsonValue> = Vec::new();
    let items: &Vec<JsonValue> = match schema.get("value") {
        Some(value) => match value.get("variants") {
            Some(fv) => match fv.as_array() {
                Some(a) => a,
                None => &empty_items,
            },
            None => &empty_items,
        },
        None => &empty_items,
    };
    let ghost js = arr_model(items@);
    proof {
        assert(js =~= payload_list_of(schema@, "variants"@));
        assert(out@ =~= head + shared_variant_lines(js.take(0)));
    }
    let mut i: usize = 0;
    while i < items.len()
        invariant
            i <= items@.len(),
            js == arr_model(items@),
            js.len() == items@.len(),
            out@ == head + shared_variant_lines(js.take(i as int)),
        decreases items@.len() - i,
    {
        proof {
            assert(js.take(i + 1).drop_last() =~= js.take(i as int));
            assert(js.take(i + 1).last() == js[i as int]);
        }
        match items[i].get("variant_name") {
            Some(t) => {
                match t.as_str() {
                    Some(vname) => {
                        out.append("    ");
                        out.append(vname.as_str());
                        out.append(",\n");
                    },
                    None => {},
                }
            },
            None => {},
        }
        proof {
            assert(out@ =~= head + shared_variant_lines(js.take(i + 1)));
        }
        i = i + 1;
    }
    out.append("}\n");
    proof {
        assert(js.take(js.len() as int) =~= js);
        assert(out@ =~= shared_enum_text(name@, schema@));
    }
    out
}

/// What a schema string emits for a requested name: nothing for a canonical
/// built-in primitive name, which is never redefined; otherwise a struct,
/// enum, or primitive emission when the text parses and carries such a kind,
/// and the fallback wrapper failing that.
pub open spec fn shared_type_text(name: Seq<char>, schema_json: Option<Seq<char>>) -> Seq<char> {
    if is_builtin_primitive(name) {
        Seq::empty()
    } else {
        shared_custom_type_text(name, schema_json)
    }
}

/// The emission for a name that is not a built-in primitive.
pub open spec fn shared_custom_type_text(name: Seq<char>, schema_json: Option<Seq<char>>) -> Seq<
    char,
> {
    match schema_json {
        Some(text) => match crate::json::json_of_text(text) {
            Some(schema) => match schema.get("kind"@) {
                Some(JsonModel::Str(kind)) => {
                    if kind == "Struct"@ {
                        shared_struct_text(name, schema)
                    } else if kind == "Enum"@ {
                        shared_enum_text(name, schema)
                    } else if kind == "Primitive"@ {
                        primitive_text_of(name, schema)
                    } else {
                        crate::typemap::basic_type_def_of(name)
                    }
                },
                _ => crate::typemap::basic_type_def_of(name),
            },
            None => crate::typemap::basic_type_def_of(name),
        },
        None => crate::typemap::basic_type_def_of(name),
    }
}

/// Renders what a schema string emits for a requested name.
fn generate_type_from_schema(name: &str, schema_json: Option<&str>) -> (r: String)
    ensures
        r@ == shared_type_text(
            name@,
            (match schema_json {
                Some(s) => Some(s@),
                None => None,
            }),
        ),
{
    if builtin_primitive(name) {
        return String::new();
    }
    let text = match schema_json {
        Some(t) => t,
        None => {
            return generate_basic_type(name);
        },
    };
    let schema = match crate::json::parse_json(text) {
        Some(s) => s,
        None => {
            return generate_basic_type(name);
        },
    };
    let kind = match schema.get("kind") {
        Some(k) => match k.as_str() {
            Some(s) => s.clone(),
            None => {
                return generate_basic_type(name);
            },
        },
        None => {
            return generate_basic_type(name);
        },
    };
    if str_eq(kind.as_str(), "Struct") {
        generate_struct_type_from_schema(name, &schema)
    } else if str_eq(kind.as_str(), "Enum") {
        generate_enum_type_from_schema(name, &schema)
    } else if str_eq(kind.as_str(), "Primitive") {
        generate_primitive_type_from_schema(name, &schema)
    } else {
        generate_basic_type(name)
    }
}

/// The text of the bool literal a wrapper writes for the verb family.
pub open spec fn bool_text(b: bool) -> Seq<char> {
    if b {
        "true"@
    } else {
        "false"@
    }
}

/// The text of one emitted call wrapper: a doc line naming the function and
/// its endpoint hint, the signature, and a body that delegates to the
/// dispatcher's endpoint call and decodes the result.
pub open spec fn typed_impl_of(
    func_name: Seq<char>,
    is_mutation: bool,
    input_type_name: Option<Seq<char>>,
    output_type_name: Seq<char>,
    endpoint: Seq<char>,
) -> Seq<char> {
    let out_ty = if output_type_name.len() == 0 {
        "()"@
    } else {
        output_type_name
    };
    let has_input = (input_type_name matches Some(t) && t.len() > 0);
    let signature = if has_input {
        "    pub async fn "@ + func_name + "(&self, params: "@ + input_type_name->0
            + ") -> Result<"@ + out_ty + ", ::laz_client::RpcClientError>"@
    } else {
        "    pub async fn "@ + func_name + "(&self) -> Result<"@ + out_ty
            + ", ::laz_client::RpcClientError>"@
    };
    let payload = if has_input {
        "Some(serde_json::to_value(&params)?)"@
    } else {
        "None"@
    };
    let call = "self.inner.call_endpoint(\""@ + endpoint + "\", "@ + bool_text(is_mutation)
        + ", "@ + payload + ").await?"@;
    let body = if out_ty == "()"@ {
        "        "@ + call + ";\n        Ok(())"@
    } else {
        "        let value = "@ + call
            + ";\n        serde_json::from_value(value).map_err(|e| ::laz_client::RpcClientError::JsonError(e))"@
    };
    "    /// Auto-generated wrapper for `"@ + func_name + "` hitting `"@ + endpoint + "`\n"@
        + signature + "\n    {\n"@ + body + "\n    }\n"@
}

/// Renders one emitted call wrapper.
#[verifier::rlimit(100)]
pub fn generate_typed_function_impl(
    func_name: &str,
    is_mutation: bool,
    input_type_name: Option<&str>,
    output_type_name: &str,
    endpoint: &str,
) -> (r: String)
    ensures
        r@ == typed_impl_of(
            func_name@,
            is_mutation,
            (match input_type_name {
                Some(s) => Some(s@),
                None => None,
            }),
            output_type_name@,
            endpoint@,
        ),
{
    let out_ty: &str = if output_type_name.is_empty() {
        "()"
    } else {
        output_type_name
    };
    let has_input: bool = match input_type_name {
        Some(t) => !t.is_empty(),
        None => false,
    };
    let mut out = String::from_str("    /// Auto-generated wrapper for `");
    out.append(func_name);
    out.append("` hitting `");
    out.append(endpoint);
    out.append("`\n");
    if has_input {
        out.append("    pub async fn ");
        out.append(func_name);
        out.append("(&self, params: ");
        match input_type_name {
            Some(t) => {
                out.append(t);
            },
            None => {},
        }
        out.append(") -> Result<");
        out.append(out_ty);
        out.append(", ::laz_client::RpcClientError>");
    } else {
        out.append("    pub async fn ");
        out.append(func_name);
        out.append("(&self) -> Result<");
        out.append(out_ty);
        out.append(", ::laz_client::RpcClientError>");
    }
    out.append("\n    {\n");
    let mut call = String::from_str("self.inner.call_endpoint(\"");
    call.append(endpoint);
    call.append("\", ");
    if is_mutation {
        call.append("true");
    } else {
        call.append("false");
    }
    call.append(", ");
    if has_input {
        call.append("Some(serde_json::to_value(&params)?)");
    } else {
        call.append("None");
    }
    call.append(").await?");
    let out_is_unit = str_eq(out_ty, "()");
    if out_is_unit {
        out.append("        ");
        out.append(call.as_str());
        out.append(";\n        Ok(())");
    } else {
        out.append("        let value = ");
        out.append(call.as_str());
        out.append(
            ";\n        serde_json::from_value(value).map_err(|e| ::laz_client::RpcClientError::JsonError(e))",
        );
    }
    out.append("\n    }\n");
    proof {
        assert(out@ =~= typed_impl_of(
            func_name@,
            is_mutation,
            (match input_type_name {
                Some(s) => Some(s@),
                None => None,
            }),
            output_type_name@,
            endpoint@,
        ));
    }
    out
}

/// Whether the type-definition table already holds a name.
pub open spec fn tm_has(tm: Seq<(Seq<char>, Seq<char>)>, name: Seq<char>) -> bool {
    exists|i: int| 0 <= i < tm.len() && tm[i].0 == name
}

/// A string member of a function entry, absent or otherwise-typed members
/// counting as absent.
pub open spec fn entry_str(f: JsonModel, key: Seq<char>) -> Option<Seq<char>> {
    crate::client::opt_str(f.get(key))
}

/// What one function entry adds to the type-definition table: a definition
/// for its non-empty, unprocessed input type name, then the same for its
/// output type name; entries without both a function name and an output
/// type name add nothing.
pub open spec fn ctypes_one(f: JsonModel, tm: Seq<(Seq<char>, Seq<char>)>) -> Seq<
    (Seq<char>, Seq<char>),
> {
    match (entry_str(f, "function_name"@), entry_str(f, "output_type_name"@)) {
        (Some(_), Some(output_type)) => {
            let tm1 = match entry_str(f, "input_type_name"@) {
                Some(input_type) => {
                    if input_type.len() > 0 && !tm_has(tm, input_type) {
                        tm.push(
                            (
                                input_type,
                                shared_type_text(input_type, entry_str(f, "input_schema_json"@)),
                            ),
                        )
                    } else {
                        tm
                    }
                },
                None => tm,
            };
            if output_type.len() > 0 && !tm_has(tm1, output_type) {
                tm1.push(
                    (
                        output_type,
                        shared_type_text(output_type, entry_str(f, "output_schema_json"@)),
                    ),
                )
            } else {
                tm1
            }
        },
        _ => tm,
    }
}

/// The type-definition table after the first `n` function entries.
pub open spec fn ctypes_state(fns: Seq<JsonModel>, n: int) -> Seq<(Seq<char>, Seq<char>)>
    decreases n,
{
    if n <= 0 {
        Seq::empty()
    } else {
        ctypes_one(fns[n - 1], ctypes_state(fns, n - 1))
    }
}

/// The concatenated definitions of the table, each non-empty one followed by
/// a blank line.
pub open spec fn typedefs_text(tm: Seq<(Seq<char>, Seq<char>)>) -> Seq<char>
    decreases tm.len(),
{
    if tm.len() == 0 {
        Seq::empty()
    } else {
        typedefs_text(tm.drop_last()) + (if tm.last().1.len() > 0 {
            tm.last().1 + "\n\n"@
        } else {
            Seq::empty()
        })
    }
}

/// What one function entry contributes to the emitted wrapper block: one
/// call wrapper, targeting its resolved endpoint or `/{name}` as a marked
/// best effort; entries without a name, a verb flag and an output type
/// contribute nothing.
pub open spec fn impl_one(f: JsonModel, epmap: Seq<(Seq<char>, Seq<Seq<char>>)>) -> Seq<char> {
    match (f.get("function_name"@), f.get("is_mutation"@), f.get("output_type_name"@)) {
        (
            Some(JsonModel::Str(func_name)),
            Some(JsonModel::Bool(is_mutation)),
            Some(JsonModel::Str(output_type)),
        ) => {
            let endpoint = match emitter_resolve(func_name, epmap) {
                Some(u) => u,
                None => "/"@ + func_name,
            };
            typed_impl_of(
                func_name,
                is_mutation,
                entry_str(f, "input_type_name"@),
                output_type,
                endpoint,
            ) + "\n"@
        },
        _ => Seq::empty(),
    }
}

/// The emitted wrapper block after the first `n` function entries.
pub open spec fn impls_text(
    fns: Seq<JsonModel>,
    epmap: Seq<(Seq<char>, Seq<Seq<char>>)>,
    n: int,
) -> Seq<char>
    decreases n,
{
    if n <= 0 {
        Seq::empty()
    } else {
        impls_text(fns, epmap, n - 1) + impl_one(fns[n - 1], epmap)
    }
}

/// The opening of the emitted client source, around the type definitions.
pub open spec fn client_header_of(
    server_url: Seq<char>,
    function_count: nat,
    tcount: nat,
    typedefs: Seq<char>,
) -> Seq<char> {
    "\n/// Auto-generated type-safe RPC client for server at: "@ + server_url
        + "\n/// Generated at build time from actual server metadata\n/// Found "@ + dec_rep(
        function_count,
    ) + " functions and "@ + dec_rep(tcount)
        + " unique types\n\n// Define all generated types first\n"@ + typedefs
        + "\n\n/// Auto-generated type-safe RPC client\npub struct GeneratedRpcClient {\n    inner: ::laz_client::LocoClient,\n}\n\nimpl GeneratedRpcClient {\n    pub async fn init(server_addr: ::laz_client::ServerAddr) -> Result<Self, ::laz_client::RpcClientError> {\n        let client = ::laz_client::LocoClient::init(server_addr).await?;\n        Ok(Self { inner: client })\n    }\n\n    pub fn inner(&self) -> &::laz_client::LocoClient {\n        &self.inner\n    }\n\n    pub fn server_addr(&self) -> &::laz_client::ServerAddr {\n        &self.inner.server_addr\n    }\n\n"@
}

/// The whole emitted client source for one metadata document.
pub open spec fn dynamic_client_of(
    functions: Seq<JsonModel>,
    endpoints: Seq<JsonModel>,
    server_url: Seq<char>,
) -> Seq<char> {
    let tm = ctypes_state(functions, functions.len() as int);
    let epmap = ep_map_state(endpoints, endpoints.len() as int);
    client_header_of(server_url, functions.len(), tm.len(), typedefs_text(tm)) + impls_text(
        functions,
        epmap,
        functions.len() as int,
    ) + "\n}\n"@
}

/// Whether the built table holds a name.
fn tmap_has(tm: &Vec<(String, String)>, name: &str) -> (r: bool)
    ensures
        r == tm_has(tmap_models(tm@), name@),
{
    let mut i: usize = 0;
    while i < tm.len()
        invariant
            i <= tm@.len(),
            forall|k: int| 0 <= k < i ==> tmap_models(tm@)[k].0 != name@,
        decreases tm@.len() - i,
    {
        if str_eq(tm[i].0.as_str(), name) {
            assert(tmap_models(tm@)[i as int].0 == name@);
            return true;
        }
        i = i + 1;
    }
    false
}

/// The models of the built type-definition table.
pub open spec fn tmap_models(tm: Seq<(String, String)>) -> Seq<(Seq<char>, Seq<char>)> {
    Seq::new(tm.len(), |i: int| (tm[i].0@, tm[i].1@))
}

/// Assembles the emitted client source from the raw function and endpoint
/// entries: the deduplicated type definitions, then one call wrapper per
/// well-formed function entry.
pub fn generate_dynamic_typed_client(
    functions: &Vec<JsonValue>,
    endpoints: &Vec<JsonValue>,
    server_url: &str,
) -> (r: Result<String, String>)
    ensures
        (r matches Ok(code) && code@ == dynamic_client_of(
            arr_model(functions@),
            arr_model(endpoints@),
            server_url@,
        )),
{
    let ghost fns = arr_model(functions@);
    let ghost eps = arr_model(endpoints@);
    let endpoint_map = build_endpoint_map(endpoints);
    let mut types: Vec<(String, String)> = Vec::new();
    let mut i: usize = 0;
    while i < functions.len()
        invariant
            i <= functions@.len(),
            fns == arr_model(functions@),
            fns.len() == functions@.len(),
            tmap_models(types@) == ctypes_state(fns, i as int),
        decreases functions@.len() - i,
    {
        let f = &functions[i];
        let ghost tm0 = tmap_models(types@);
        let func_name_ok = match f.get("function_name") {
            Some(t) => t.as_str().is_some(),
            None => false,
        };
        let output_type: Option<&String> = match f.get("output_type_name") {
            Some(t) => t.as_str(),
            None => None,
        };
        match (func_name_ok, output_type) {
            (true, Some(output_type)) => {
                match f.get("input_type_name") {
                    Some(t) => {
                        match t.as_str() {
                            Some(input_type) => {
                                if !input_type.as_str().is_empty() && !tmap_has(
                                    &types,
                                    input_type.as_str(),
                                ) {
                                    let sj: Option<&str> = match f.get("input_schema_json") {
                                        Some(w) => match w.as_str() {
                                            Some(x) => Some(x.as_str()),
                                            None => None,
                                        },
                                        None => None,
                                    };
                                    let def = generate_type_from_schema(input_type.as_str(), sj);
                                    types.push((input_type.clone(), def));
                                }
                            },
                            None => {},
                        }
                    },
                    None => {},
                }
                let ghost tm1 = tmap_models(types@);
                proof {
                    assert(tm1 =~= (match entry_str(fns[i as int], "input_type_name"@) {
                        Some(input_type) => {
                            if input_type.len() > 0 && !tm_has(tm0, input_type) {
                                tm0.push(
                                    (
                                        input_type,
                                        shared_type_text(
                                            input_type,
                                            entry_str(fns[i as int], "input_schema_json"@),
                                        ),
                                    ),
                                )
                            } else {
                                tm0
                            }
                        },
                        None => tm0,
                    }));
                }
                if !output_type.as_str().is_empty() && !tmap_has(&types, output_type.as_str()) {
                    let sj: Option<&str> = match f.get("output_schema_json") {
                        Some(w) => match w.as_str() {
                            Some(x) => Some(x.as_str()),
                            None => None,
                        },
                        None => None,
                    };
                    let def = generate_type_from_schema(output_type.as_str(), sj);
                    types.push((output_type.clone(), def));
                }
                proof {
                    assert(tmap_models(types@) =~= ctypes_one(fns[i as int], tm0));
                }
            },
            _ => {
                proof {
                    assert(tmap_models(types@) =~= ctypes_one(fns[i as int], tm0));
                }
            },
        }
        i = i + 1;
    }
    let mut type_definitions = String::new();
    let ghost tm = tmap_models(types@);
    let mut j: usize = 0;
    while j < types.len()
        invariant
            j <= types@.len(),
            tm == tmap_models(types@),
            tm.len() == types@.len(),
            type_definitions@ == typedefs_text(tm.take(j as int)),
        decreases types@.len() - j,
    {
        proof {
            assert(tm.take(j + 1).drop_last() =~= tm.take(j as int));
            assert(tm.take(j + 1).last() == tm[j as int]);
        }
        if !types[j].1.as_str().is_empty() {
            type_definitions.append(types[j].1.as_str());
            type_definitions.append("\n\n");
        }
        proof {
            assert(type_definitions@ =~= typedefs_text(tm.take(j + 1)));
        }
        j = j + 1;
    }
    proof {
        assert(tm.take(tm.len() as int) =~= tm);
    }
    let mut code = String::from_str("\n/// Auto-generated type-safe RPC client for server at: ");
    code.append(server_url);
    code.append("\n/// Generated at build time from actual server metadata\n/// Found ");
    let fcount = crate::text::u64_to_text(functions.len() as u64);
    code.append(fcount.as_str());
    code.append(" functions and ");
    let tcount = crate::text::u64_to_text(types.len() as u64);
    code.append(tcount.as_str());
    code.append(" unique types\n\n// Define all generated types first\n");
    code.append(type_definitions.as_str());
    code.append(
        "\n\n/// Auto-generated type-safe RPC client\npub struct GeneratedRpcClient {\n    inner: ::laz_client::LocoClient,\n}\n\nimpl GeneratedRpcClient {\n    pub async fn init(server_addr: ::laz_client::ServerAddr) -> Result<Self, ::laz_client::RpcClientError> {\n        let client = ::laz_client::LocoClient::init(server_addr).await?;\n        Ok(Self { inner: client })\n    }\n\n    pub fn inner(&self) -> &::laz_client::LocoClient {\n        &self.inner\n    }\n\n    pub fn server_addr(&self) -> &::laz_client::ServerAddr {\n        &self.inner.server_addr\n    }\n\n",
    );
    let ghost epmap = ep_map_models(endpoint_map@);
    let ghost header = client_header_of(server_url@, fns.len(), tm.len(), typedefs_text(tm));
    proof {
        assert(code@ =~= header);
    }
    let mut k: usize = 0;
    while k < functions.len()
        invariant
            k <= functions@.len(),
            fns == arr_model(functions@),
            fns.len() == functions@.len(),
            epmap == ep_map_models(endpoint_map@),
            epmap == ep_map_state(eps, eps.len() as int),
            code@ == header + impls_text(fns, epmap, k as int),
        decreases functions@.len() - k,
    {
        let f = &functions[k];
        let ghost code0 = code@;
        let func_name: Option<&String> = match f.get("function_name") {
            Some(t) => t.as_str(),
            None => None,
        };
        let is_mutation: Option<bool> = match f.get("is_mutation") {
            Some(t) => t.as_bool(),
            None => None,
        };
        let output_type: Option<&String> = match f.get("output_type_name") {
            Some(t) => t.as_str(),
            None => None,
        };
        match (func_name, is_mutation, output_type) {
            (Some(func_name), Some(is_mutation), Some(output_type)) => {
                let endpoint: String = match find_endpoint_for_function(
                    func_name.as_str(),
                    &endpoint_map,
                ) {
                    Some(u) => u,
                    None => {
                        let mut e = String::from_str("/");
                        e.append(func_name.as_str());
                        e
                    },
                };
                let input_type: Option<&str> = match f.get("input_type_name") {
                    Some(t) => match t.as_str() {
                        Some(x) => Some(x.as_str()),
                        None => None,
                    },
                    None => None,
                };
                let func_impl = generate_typed_function_impl(
                    func_name.as_str(),
                    is_mutation,
                    input_type,
                    output_type.as_str(),
                    endpoint.as_str(),
                );
                code.append(func_impl.as_str());
                code.append("\n");
                proof {
                    assert(code@ =~= code0 + impl_one(fns[k as int], epmap));
                }
            },
            _ => {
                proof {
                    assert(code@ =~= code0 + impl_one(fns[k as int], epmap));
                }
            },
        }
        k = k + 1;
    }
    code.append("\n}\n");
    proof {
        assert(code@ =~= dynamic_client_of(fns, eps, server_url@));
    }
    Ok(code)
}

/// Reads the function and endpoint lists out of a raw metadata document and
/// assembles the emitted client source; a document without a function list
/// is refused.
pub fn generate_client_code_from_metadata_json(server_url: &str, metadata_json: &str) -> (r: Result<
    String,
    String,
>)
    ensures
        (match crate::json::json_of_text(metadata_json@) {
            None => r matches Err(e) && e@ == "invalid metadata JSON"@,
            Some(doc) => (match doc.get("functions"@) {
                Some(JsonModel::Arr(fs)) => r matches Ok(code) && code@ == dynamic_client_of(
                    fs,
                    (match doc.get("endpoints_discovery"@) {
                        Some(JsonModel::Arr(es)) => es,
                        _ => Seq::empty(),
                    }),
                    server_url@,
                ),
                _ => r matches Err(e) && e@ == "No functions found in metadata"@,
            }),
        }),
{
    let doc = match crate::json::parse_json(metadata_json) {
        Some(d) => d,
        None => {
            return Err(String::from_str("invalid metadata JSON"));
        },
    };
    let functions: &Vec<JsonValue> = match doc.get("functions") {
        Some(fv) => match fv.as_array() {
            Some(a) => a,
            None => {
                return Err(String::from_str("No functions found in metadata"));
            },
        },
        None => {
            return Err(String::from_str("No functions found in metadata"));
        },
    };
    let empty_eps: Vec<JsonValue> = Vec::new();
    let endpoints: &Vec<JsonValue> = match doc.get("endpoints_discovery") {
        Some(ev) => match ev.as_array() {
            Some(a) => a,
            None => &empty_eps,
        },
        None => &empty_eps,
    };
    proof {
        assert(arr_model(empty_eps@) =~= Seq::<JsonModel>::empty());
    }
    match generate_dynamic_typed_client(functions, endpoints, server_url) {
        Ok(code) => Ok(code),
        Err(e) => Err(e),
    }
}

/// The source of the runtime fallback client, emitted when build-time
/// generation is not possible: it discovers functions dynamically.
pub open spec fn fallback_client_text() -> Seq<char> {
    "\n/// Runtime-generated RPC client (build-time generation failed)\n/// This client discovers functions dynamically at runtime\npub struct GeneratedRpcClient {\n    inner: ::laz_client::LocoClient,\n}\n\nimpl GeneratedRpcClient {\n    /// Initialize the RPC client\n    pub async fn init(server_addr: ::laz_client::ServerAddr) -> Result<Self, ::laz_client::RpcClientError> {\n        let client = ::laz_client::LocoClient::init(server_addr).await?;\n        Ok(Self { inner: client })\n    }\n\n    /// Get the underlying LocoClient for advanced usage\n    pub fn inner(&self) -> &::laz_client::LocoClient {\n        &self.inner\n    }\n\n    /// Get the server address\n    pub fn server_addr(&self) -> &::laz_client::ServerAddr {\n        &self.inner.server_addr\n    }\n\n    /// Call any RPC function by name with parameters\n    pub async fn call(&self, function_name: &str, params: Option<serde_json::Value>) -> Result<serde_json::Value, ::laz_client::RpcClientError> {\n        self.inner.call_function(function_name, params).await\n    }\n\n    /// Get available function names from server metadata\n    pub fn available_functions(&self) -> Vec<String> {\n        self.inner.get_function_names()\n    }\n}\n"@
}

/// Emits the runtime fallback client source.
pub fn generate_runtime_fallback_client() -> (r: String)
    ensures
        r@ == fallback_client_text(),
{
    String::from_str(
        "\n/// Runtime-generated RPC client (build-time generation failed)\n/// This client discovers functions dynamically at runtime\npub struct GeneratedRpcClient {\n    inner: ::laz_client::LocoClient,\n}\n\nimpl GeneratedRpcClient {\n    /// Initialize the RPC client\n    pub async fn init(server_addr: ::laz_client::ServerAddr) -> Result<Self, ::laz_client::RpcClientError> {\n        let client = ::laz_client::LocoClient::init(server_addr).await?;\n        Ok(Self { inner: client })\n    }\n\n    /// Get the underlying LocoClient for advanced usage\n    pub fn inner(&self) -> &::laz_client::LocoClient {\n        &self.inner\n    }\n\n    /// Get the server address\n    pub fn server_addr(&self) -> &::laz_client::ServerAddr {\n        &self.inner.server_addr\n    }\n\n    /// Call any RPC function by name with parameters\n    pub async fn call(&self, function_name: &str, params: Option<serde_json::Value>) -> Result<serde_json::Value, ::laz_client::RpcClientError> {\n        self.inner.call_function(function_name, params).await\n    }\n\n    /// Get available function names from server metadata\n    pub fn available_functions(&self) -> Vec<String> {\n        self.inner.get_function_names()\n    }\n}\n",
    )
}

} // verus!
