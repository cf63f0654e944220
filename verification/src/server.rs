//! Server-side RPC support: the write-once endpoint discovery registry and
//! the metadata document served under the well-known path, assembled from
//! the explicit registry of functions and schemas.

use vstd::prelude::*;
use vstd::string::StringExecFns;
use crate::codec::{encode_model, encode_schema};
use crate::json::{json_text_of, json_to_text, JsonModel, JsonValue};
use crate::text::dec_rep;
use crate::types::{
    find_schema_spec, find_type_schema, FunctionMetadata, LazRegistry, ParamInfo,
};

verus! {

/// The write-once registry of discovered routes.
#[derive(Debug)]
pub struct EndpointsRegistry {
    pub endpoints: Option<Vec<(String, Vec<String>)>>,
}

impl EndpointsRegistry {
    /// An empty registry, with no routes registered yet.
    pub fn new() -> (r: EndpointsRegistry)
        ensures
            r.endpoints is None,
    {
        EndpointsRegistry { endpoints: None }
    }
}

/// Registers the discovered routes, once; later registrations change
/// nothing.
pub fn register_endpoints_discovery(
    reg: &mut EndpointsRegistry,
    endpoints: Vec<(String, Vec<String>)>,
)
    ensures
        old(reg).endpoints is None ==> final(reg).endpoints == Some(endpoints),
        old(reg).endpoints is Some ==> *final(reg) == *old(reg),
{
    match reg.endpoints {
        None => {
            reg.endpoints = Some(endpoints);
        },
        Some(_) => {},
    }
}

/// The registered routes, where any were registered.
pub fn get_endpoints_discovery<'a>(reg: &'a EndpointsRegistry) -> (r: Option<&'a Vec<(
    String,
    Vec<String>,
)>>)
    ensures
        (match r {
            Some(eps) => reg.endpoints == Some(*eps),
            None => reg.endpoints is None,
        }),
{
    match &reg.endpoints {
        Some(eps) => Some(eps),
        None => None,
    }
}

/// The initializer that exposes RPC metadata over HTTP. The route mounting
/// itself lives with the web framework; the document it serves is built
/// here.
#[derive(Debug)]
pub struct LazEndpoint;

impl LazEndpoint {
    /// The initializer's name.
    pub fn name(&self) -> (r: String)
        ensures
            r@ == "laz-endpoint"@,
    {
        String::from_str("laz-endpoint")
    }
}

/// All collected function metadata, named entries first.
pub open spec fn all_metadata_of(reg: LazRegistry) -> Seq<FunctionMetadata> {
    Seq::new(reg.metadata_entries@.len(), |i: int| reg.metadata_entries@[i].metadata)
        + reg.metadata@
}

/// The wire form of one parameter.
pub open spec fn param_json_of(p: ParamInfo) -> JsonModel {
    JsonModel::Obj(
        seq![
            ("name"@, JsonModel::Str(p.name@)),
            ("full_type"@, JsonModel::Str(p.full_type@)),
            ("extractor"@, JsonModel::Str(p.extractor@)),
            ("inner_type_schema"@, encode_model(p.inner_type_schema@)),
        ],
    )
}

/// The wire forms of a parameter list, in order.
pub open spec fn params_json_of(ps: Vec<ParamInfo>) -> Seq<JsonModel> {
    Seq::new(ps.len() as nat, |i: int| param_json_of(ps[i]))
}

/// The schema text a type name contributes: the registered schema rendered
/// as JSON text, or null where the registry knows no such name.
pub open spec fn schema_text_json(reg: LazRegistry, name: Seq<char>) -> JsonModel {
    match find_schema_spec(reg, name) {
        Some(s) => JsonModel::Str(json_text_of(encode_model(s@))),
        None => JsonModel::Null,
    }
}

/// The schema text of an optional input type name; null where none is
/// declared.
pub open spec fn opt_schema_text_json(reg: LazRegistry, name: Option<Seq<char>>) -> JsonModel {
    match name {
        Some(n) => schema_text_json(reg, n),
        None => JsonModel::Null,
    }
}

/// An optional string as a wire value; null where absent.
pub open spec fn opt_str_json(s: Option<Seq<char>>) -> JsonModel {
    match s {
        Some(t) => JsonModel::Str(t),
        None => JsonModel::Null,
    }
}

/// The wire form of one function entry of the metadata document.
pub open spec fn function_json_of(m: FunctionMetadata, reg: LazRegistry) -> JsonModel {
    JsonModel::Obj(
        seq![
            ("function_name"@, JsonModel::Str(m.function_name@)),
            ("is_mutation"@, JsonModel::Bool(m.is_mutation)),
            ("is_async"@, JsonModel::Bool(m.is_async)),
            (
                "input_type_name"@,
                opt_str_json(
                    match m.input_type_name {
                        Some(s) => Some(s@),
                        None => None,
                    },
                ),
            ),
            ("output_type_name"@, JsonModel::Str(m.output_type_name@)),
            ("params"@, JsonModel::Arr(params_json_of(m.params))),
            (
                "input_schema_json"@,
                opt_schema_text_json(
                    reg,
                    (match m.input_type_name {
                        Some(s) => Some(s@),
                        None => None,
                    }),
                ),
            ),
            ("output_schema_json"@, schema_text_json(reg, m.output_type_name@)),
        ],
    )
}

/// The wire forms of all function entries, in registry order.
pub open spec fn functions_json_of(fns: Seq<FunctionMetadata>, reg: LazRegistry) -> Seq<JsonModel> {
    Seq::new(fns.len(), |i: int| function_json_of(fns[i], reg))
}

/// The wire forms of a route's verbs.
pub open spec fn verbs_json_of(methods: Vec<String>) -> Seq<JsonModel> {
    Seq::new(methods.len() as nat, |i: int| JsonModel::Str(methods[i]@))
}

/// The wire form of one discovered route.
pub open spec fn endpoint_json_of(e: (String, Vec<String>)) -> JsonModel {
    JsonModel::Obj(
        seq![
            ("uri"@, JsonModel::Str(e.0@)),
            ("methods"@, JsonModel::Arr(verbs_json_of(e.1))),
        ],
    )
}

/// The wire forms of all discovered routes, in order.
pub open spec fn endpoints_json_of(eps: Seq<(String, Vec<String>)>) -> Seq<JsonModel> {
    Seq::new(eps.len(), |i: int| endpoint_json_of(eps[i]))
}

/// The whole metadata document: the function list with inlined schema text,
/// the discovered routes, and both counters.
pub open spec fn metadata_document_of(reg: LazRegistry, eps: Seq<(String, Vec<String>)>) -> JsonModel {
    let fns = all_metadata_of(reg);
    JsonModel::Obj(
        seq![
            ("total_functions"@, JsonModel::Num(dec_rep(fns.len()))),
            ("functions"@, JsonModel::Arr(functions_json_of(fns, reg))),
            ("endpoints_discovery"@, JsonModel::Arr(endpoints_json_of(eps))),
            ("total_endpoints"@, JsonModel::Num(dec_rep(eps.len()))),
        ],
    )
}

/// Renders the schema registered under a name as JSON text, or null.
fn schema_text_value(reg: &LazRegistry, name: &str) -> (r: JsonValue)
    ensures
        r@ == schema_text_json(*reg, name@),
{
    match find_type_schema(reg, name) {
        Some(schema) => {
            let encoded = encode_schema(schema);
            JsonValue::Str(json_to_text(&encoded))
        },
        None => JsonValue::Null,
    }
}

/// Builds the wire form of one function entry.
fn function_json_value(m: &FunctionMetadata, reg: &LazRegistry) -> (r: JsonValue)
    ensures
        r@ == function_json_of(*m, *reg),
{
    let mut params: Vec<JsonValue> = Vec::new();
    let mut i: usize = 0;
    while i < m.params.len()
        invariant
            i <= m.params@.len(),
            params@.len() == i as int,
            forall|k: int| 0 <= k < i ==> #[trigger] params@[k]@ == param_json_of(m.params@[k]),
        decreases m.params@.len() - i,
    {
        let p = &m.params[i];
        let mut fields: Vec<(String, JsonValue)> = Vec::new();
        fields.push((String::from_str("name"), JsonValue::Str(p.name.clone())));
        fields.push((String::from_str("full_type"), JsonValue::Str(p.full_type.clone())));
        fields.push((String::from_str("extractor"), JsonValue::Str(p.extractor.clone())));
        let encoded = encode_schema(&p.inner_type_schema);
        fields.push((String::from_str("inner_type_schema"), encoded));
        let pv = JsonValue::Obj(fields);
        proof {
            let s = pv@->Obj_0;
            assert(fields@.len() == 4);
            assert(fields@[0].0@ == "name"@ && fields@[0].1@ == JsonModel::Str(p.name@));
            assert(fields@[1].0@ == "full_type"@ && fields@[1].1@ == JsonModel::Str(p.full_type@));
            assert(fields@[2].0@ == "extractor"@ && fields@[2].1@ == JsonModel::Str(p.extractor@));
            assert(fields@[3].0@ == "inner_type_schema"@ && fields@[3].1@ == encode_model(
                p.inner_type_schema@,
            ));
            assert(s =~= param_json_of(m.params@[i as int])->Obj_0);
        }
        params.push(pv);
        i = i + 1;
    }
    let input_type_value = match &m.input_type_name {
        Some(s) => JsonValue::Str(s.clone()),
        None => JsonValue::Null,
    };
    let input_schema_value = match &m.input_type_name {
        Some(s) => schema_text_value(reg, s.as_str()),
        None => JsonValue::Null,
    };
    let output_schema_value = schema_text_value(reg, m.output_type_name.as_str());
    let mut fields: Vec<(String, JsonValue)> = Vec::new();
    fields.push((String::from_str("function_name"), JsonValue::Str(m.function_name.clone())));
    fields.push((String::from_str("is_mutation"), JsonValue::Bool(m.is_mutation)));
    fields.push((String::from_str("is_async"), JsonValue::Bool(m.is_async)));
    fields.push((String::from_str("input_type_name"), input_type_value));
    fields.push((String::from_str("output_type_name"), JsonValue::Str(m.output_type_name.clone())));
    let params_value = JsonValue::Arr(params);
    proof {
        assert forall|k: int| 0 <= k < params@.len() implies params_value@->Arr_0[k]
            == params_json_of(m.params)[k] by {
            assert(params@[k]@ == param_json_of(m.params@[k]));
        }
        assert(params_value@->Arr_0 =~= params_json_of(m.params));
    }
    fields.push((String::from_str("params"), params_value));
    fields.push((String::from_str("input_schema_json"), input_schema_value));
    fields.push((String::from_str("output_schema_json"), output_schema_value));
    let r = JsonValue::Obj(fields);
    proof {
        assert(fields@.len() == 8);
        assert(fields@[0].0@ == "function_name"@ && fields@[0].1@ == JsonModel::Str(
            m.function_name@,
        ));
        assert(fields@[1].0@ == "is_mutation"@ && fields@[1].1@ == JsonModel::Bool(m.is_mutation));
        assert(fields@[2].0@ == "is_async"@ && fields@[2].1@ == JsonModel::Bool(m.is_async));
        assert(fields@[3].0@ == "input_type_name"@ && fields@[3].1@ == opt_str_json(
            match m.input_type_name {
                Some(t) => Some(t@),
                None => None,
            },
        ));
        assert(fields@[4].0@ == "output_type_name"@ && fields@[4].1@ == JsonModel::Str(
            m.output_type_name@,
        ));
        assert(fields@[5].0@ == "params"@ && fields@[5].1@ == JsonModel::Arr(
            params_json_of(m.params),
        ));
        assert(fields@[6].0@ == "input_schema_json"@ && fields@[6].1@ == opt_schema_text_json(
            *reg,
            (match m.input_type_name {
                Some(t) => Some(t@),
                None => None,
            }),
        ));
        assert(fields@[7].0@ == "output_schema_json"@ && fields@[7].1@ == schema_text_json(
            *reg,
            m.output_type_name@,
        ));
        assert(r@->Obj_0 =~= function_json_of(*m, *reg)->Obj_0);
    }
    r
}

/// Builds the metadata document served under the well-known path.
pub fn build_metadata_document(reg: &LazRegistry, endpoints: &Vec<(String, Vec<String>)>) -> (r:
    JsonValue)
    ensures
        r@ == metadata_document_of(*reg, endpoints@),
{
    let metas = crate::types::get_all_function_metadata(reg);
    let ghost fns = all_metadata_of(*reg);
    proof {
        assert forall|k: int| 0 <= k < metas@.len() implies *(metas@[k]) == fns[k] by {
            if k < reg.metadata_entries@.len() {
                assert(*(metas@[k]) == reg.metadata_entries@[k].metadata);
            } else {
                assert(*(metas@[k]) == reg.metadata@[k - reg.metadata_entries@.len()]);
            }
        }
        assert(metas@.len() == fns.len());
    }
    let mut functions: Vec<JsonValue> = Vec::new();
    let mut i: usize = 0;
    while i < metas.len()
        invariant
            i <= metas@.len(),
            fns == all_metadata_of(*reg),
            metas@.len() == fns.len(),
            forall|k: int| 0 <= k < metas@.len() ==> *(#[trigger] metas@[k]) == fns[k],
            functions@.len() == i as int,
            forall|k: int|
                0 <= k < i ==> #[trigger] functions@[k]@ == function_json_of(fns[k], *reg),
        decreases metas@.len() - i,
    {
        let fv = function_json_value(metas[i], reg);
        functions.push(fv);
        i = i + 1;
    }
    let mut eps: Vec<JsonValue> = Vec::new();
    let mut j: usize = 0;
    while j < endpoints.len()
        invariant
            j <= endpoints@.len(),
            eps@.len() == j as int,
            forall|k: int| 0 <= k < j ==> #[trigger] eps@[k]@ == endpoint_json_of(endpoints@[k]),
        decreases endpoints@.len() - j,
    {
        let mut verbs: Vec<JsonValue> = Vec::new();
        let mut t: usize = 0;
        while t < endpoints[j].1.len()
            invariant
                0 <= j < endpoints@.len(),
                t <= endpoints@[j as int].1@.len(),
                verbs@.len() == t as int,
                forall|k: int|
                    0 <= k < t ==> #[trigger] verbs@[k]@ == JsonModel::Str(
                        endpoints@[j as int].1@[k]@,
                    ),
            decreases endpoints@[j as int].1@.len() - t,
        {
            verbs.push(JsonValue::Str(endpoints[j].1[t].clone()));
            t = t + 1;
        }
        let verbs_value = JsonValue::Arr(verbs);
        proof {
            assert forall|k: int| 0 <= k < verbs@.len() implies verbs_value@->Arr_0[k]
                == verbs_json_of(endpoints@[j as int].1)[k] by {
                assert(verbs@[k]@ == JsonModel::Str(endpoints@[j as int].1@[k]@));
            }
            assert(verbs_value@->Arr_0 =~= verbs_json_of(endpoints@[j as int].1));
        }
        let mut fields: Vec<(String, JsonValue)> = Vec::new();
        fields.push((String::from_str("uri"), JsonValue::Str(endpoints[j].0.clone())));
        fields.push((String::from_str("methods"), verbs_value));
        let ev = JsonValue::Obj(fields);
        proof {
            assert(fields@.len() == 2);
            assert(fields@[0].0@ == "uri"@ && fields@[0].1@ == JsonModel::Str(
                endpoints@[j as int].0@,
            ));
            assert(fields@[1].0@ == "methods"@ && fields@[1].1@ == JsonModel::Arr(
                verbs_json_of(endpoints@[j as int].1),
            ));
            assert(ev@->Obj_0 =~= endpoint_json_of(endpoints@[j as int])->Obj_0);
        }
        eps.push(ev);
        j = j + 1;
    }
    let total_functions = crate::text::u64_to_text(functions.len() as u64);
    let total_endpoints = crate::text::u64_to_text(eps.len() as u64);
    let functions_value = JsonValue::Arr(functions);
    let eps_value = JsonValue::Arr(eps);
    proof {
        assert forall|k: int| 0 <= k < functions@.len() implies functions_value@->Arr_0[k]
            == functions_json_of(fns, *reg)[k] by {
            assert(functions@[k]@ == function_json_of(fns[k], *reg));
        }
        assert(functions_value@->Arr_0 =~= functions_json_of(fns, *reg));
        assert forall|k: int| 0 <= k < eps@.len() implies eps_value@->Arr_0[k]
            == endpoints_json_of(endpoints@)[k] by {
            assert(eps@[k]@ == endpoint_json_of(endpoints@[k]));
        }
        assert(eps_value@->Arr_0 =~= endpoints_json_of(endpoints@));
    }
    let mut fields: Vec<(String, JsonValue)> = Vec::new();
    fields.push((String::from_str("total_functions"), JsonValue::Num(total_functions)));
    fields.push((String::from_str("functions"), functions_value));
    fields.push((String::from_str("endpoints_discovery"), eps_value));
    fields.push((String::from_str("total_endpoints"), JsonValue::Num(total_endpoints)));
    let r = JsonValue::Obj(fields);
    proof {
        assert(fields@.len() == 4);
        assert(fields@[0].0@ == "total_functions"@ && fields@[0].1@ == JsonModel::Num(
            dec_rep(fns.len()),
        ));
        assert(fields@[1].0@ == "functions"@ && fields@[1].1@ == JsonModel::Arr(
            functions_json_of(fns, *reg),
        ));
        assert(fields@[2].0@ == "endpoints_discovery"@ && fields@[2].1@ == JsonModel::Arr(
            endpoints_json_of(endpoints@),
        ));
        assert(fields@[3].0@ == "total_endpoints"@ && fields@[3].1@ == JsonModel::Num(
            dec_rep(endpoints@.len()),
        ));
        assert(r@->Obj_0 =~= metadata_document_of(*reg, endpoints@)->Obj_0);
    }
    r
}

/// Renders the metadata document as the text the well-known path serves.
pub fn render_metadata_document(reg: &LazRegistry, endpoints: &Vec<(String, Vec<String>)>) -> (r:
    String)
    ensures
        r@ == json_text_of(metadata_document_of(*reg, endpoints@)),
{
    let doc = build_metadata_document(reg, endpoints);
    json_to_text(&doc)
}

} // verus!
