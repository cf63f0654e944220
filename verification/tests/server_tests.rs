use laz_rpc::client::parse_metadata_response;
use laz_rpc::codegen;
use laz_rpc::json::JsonValue;
use laz_rpc::server::{
    build_metadata_document, get_endpoints_discovery, register_endpoints_discovery,
    render_metadata_document, EndpointsRegistry, LazEndpoint,
};
use laz_rpc::types::{
    find_type_schema, get_all_registered_functions, make_function_metadata,
    register_function_metadata, LazRegistry, ServerAddr, TypeSchema, TypeSchemaEntry,
};

#[test]
fn test_server_addr_creation() {
    let addr = ServerAddr { ip: "localhost".to_string(), port: 8080 };
    assert_eq!(addr.base_url(), "http://localhost:8080");
}

#[test]
fn lib_test_server_addr_base_url() {
    let addr = ServerAddr { ip: "localhost".to_string(), port: 8080 };
    assert_eq!(addr.base_url(), "http://localhost:8080");
}

#[test]
fn endpoint_registry_is_write_once() {
    let mut reg = EndpointsRegistry::new();
    assert!(get_endpoints_discovery(&reg).is_none());
    register_endpoints_discovery(
        &mut reg,
        vec![("/api/a".to_string(), vec!["GET".to_string()])],
    );
    register_endpoints_discovery(&mut reg, vec![("/api/b".to_string(), vec![])]);
    let eps = get_endpoints_discovery(&reg).unwrap();
    assert_eq!(eps.len(), 1);
    assert_eq!(eps[0].0, "/api/a");
}

#[test]
fn laz_endpoint_carries_its_name() {
    assert_eq!(LazEndpoint.name(), "laz-endpoint");
}

#[test]
fn function_registry_replaces_entries_by_name() {
    let mut reg = LazRegistry::new();
    let first = make_function_metadata(
        "login".to_string(),
        vec![],
        TypeSchema::Primitive("()".to_string()),
        None,
        "AuthResponse".to_string(),
        true,
        true,
    );
    let second = make_function_metadata(
        "login".to_string(),
        vec![],
        TypeSchema::Primitive("()".to_string()),
        Some("LoginParams".to_string()),
        "AuthResponse".to_string(),
        true,
        true,
    );
    register_function_metadata(&mut reg, first);
    register_function_metadata(&mut reg, second);
    let all = get_all_registered_functions(&reg);
    assert_eq!(all.len(), 1);
    assert_eq!(all[0].input_type_name, Some("LoginParams".to_string()));
}

#[test]
fn schemas_are_found_by_entry_name_or_own_name() {
    let mut reg = LazRegistry::new();
    reg.schema_entries.push(TypeSchemaEntry {
        ty_name: "LoginParams".to_string(),
        schema: TypeSchema::Primitive("String".to_string()),
    });
    reg.schemas.push(TypeSchema::Opaque("Mystery".to_string()));
    assert!(find_type_schema(&reg, "LoginParams").is_some());
    assert!(find_type_schema(&reg, "String").is_some());
    assert!(find_type_schema(&reg, "Mystery").is_some());
    assert!(find_type_schema(&reg, "Nowhere").is_none());
}

#[test]
fn metadata_document_round_trips_through_the_client_parser() {
    let mut reg = LazRegistry::new();
    register_function_metadata(
        &mut reg,
        make_function_metadata(
            "login".to_string(),
            vec![],
            TypeSchema::Primitive("AuthResponse".to_string()),
            Some("LoginParams".to_string()),
            "AuthResponse".to_string(),
            true,
            true,
        ),
    );
    // the keyed registry is not served directly: expose it as bare metadata
    let served = get_all_registered_functions(&reg);
    for m in served {
        reg.metadata.push(m);
    }
    let endpoints = vec![("/api/auth/login".to_string(), vec!["POST".to_string()])];
    let text = render_metadata_document(&reg, &endpoints);
    let parsed = parse_metadata_response(text.as_str()).unwrap();
    assert_eq!(parsed.total_functions, 1);
    assert_eq!(parsed.total_endpoints, 1);
    assert_eq!(parsed.functions.len(), 1);
    let f = &parsed.functions[0];
    assert_eq!(f.get("function_name").unwrap().as_str().unwrap(), "login");
    assert_eq!(f.get("is_mutation").unwrap().as_bool(), Some(true));
    let ep = &parsed.endpoints_discovery[0];
    assert_eq!(ep.get("uri").unwrap().as_str().unwrap(), "/api/auth/login");
}

#[test]
fn document_inlines_registered_schema_text() {
    let mut reg = LazRegistry::new();
    reg.schema_entries.push(TypeSchemaEntry {
        ty_name: "AuthResponse".to_string(),
        schema: TypeSchema::Primitive("String".to_string()),
    });
    reg.metadata.push(make_function_metadata(
        "login".to_string(),
        vec![],
        TypeSchema::Primitive("AuthResponse".to_string()),
        None,
        "AuthResponse".to_string(),
        true,
        true,
    ));
    let doc = build_metadata_document(&reg, &vec![]);
    let functions = doc.get("functions").unwrap().as_array().unwrap();
    let schema_text = functions[0].get("output_schema_json").unwrap().as_str().unwrap();
    assert_eq!(schema_text, "{\"kind\":\"Primitive\",\"value\":\"String\"}");
}

#[test]
fn emitted_client_names_every_function_once() {
    let function = JsonValue::Obj(vec![
        ("function_name".to_string(), JsonValue::Str("login".to_string())),
        ("is_mutation".to_string(), JsonValue::Bool(true)),
        ("output_type_name".to_string(), JsonValue::Str("AuthResponse".to_string())),
        ("input_type_name".to_string(), JsonValue::Str("LoginParams".to_string())),
    ]);
    let endpoint = JsonValue::Obj(vec![
        ("uri".to_string(), JsonValue::Str("/api/auth/login".to_string())),
        ("methods".to_string(), JsonValue::Arr(vec![JsonValue::Str("POST".to_string())])),
    ]);
    let code = codegen::generate_dynamic_typed_client(
        &vec![function],
        &vec![endpoint],
        "http://localhost:5150",
    )
    .unwrap();
    assert!(code.contains("pub struct GeneratedRpcClient"));
    assert!(code.contains("/// Auto-generated wrapper for `login` hitting `/api/auth/login`"));
    assert!(code.contains("pub async fn login(&self, params: LoginParams) -> Result<AuthResponse, ::laz_client::RpcClientError>"));
    assert!(code.contains("self.inner.call_endpoint(\"/api/auth/login\", true, Some(serde_json::to_value(&params)?)).await?"));
    assert!(code.contains("Found 1 functions and 2 unique types"));
}

#[test]
fn emitter_requires_a_function_list() {
    match codegen::generate_client_code_from_metadata_json("http://localhost:5150", "{}") {
        Err(e) => assert_eq!(e, "No functions found in metadata"),
        Ok(_) => panic!("a document without functions must be refused"),
    }
    match codegen::generate_client_code_from_metadata_json("http://localhost:5150", "nonsense") {
        Err(e) => assert_eq!(e, "invalid metadata JSON"),
        Ok(_) => panic!("unreadable text must be refused"),
    }
}

#[test]
fn emitter_builds_from_raw_document_text() {
    let text = "{\"functions\": [{\"function_name\": \"ping\", \"is_mutation\": false, \"output_type_name\": \"\"}], \"endpoints_discovery\": [{\"uri\": \"/api/ping\", \"methods\": [\"GET\"]}]}";
    let code =
        codegen::generate_client_code_from_metadata_json("http://localhost:5150", text).unwrap();
    assert!(code.contains("pub async fn ping(&self) -> Result<(), ::laz_client::RpcClientError>"));
    assert!(code.contains("self.inner.call_endpoint(\"/api/ping\", false, None).await?"));
}

#[test]
fn fallback_client_offers_dynamic_calls() {
    let code = codegen::generate_runtime_fallback_client();
    assert!(code.contains("Runtime-generated RPC client (build-time generation failed)"));
    assert!(code.contains("pub async fn call(&self, function_name: &str"));
    assert!(code.contains("pub fn available_functions(&self) -> Vec<String>"));
}

#[test]
fn endpoint_map_keeps_one_entry_per_uri() {
    let e1 = JsonValue::Obj(vec![
        ("uri".to_string(), JsonValue::Str("/api/a".to_string())),
        ("methods".to_string(), JsonValue::Arr(vec![JsonValue::Str("GET".to_string())])),
    ]);
    let e2 = JsonValue::Obj(vec![
        ("uri".to_string(), JsonValue::Str("/api/a".to_string())),
        ("methods".to_string(), JsonValue::Arr(vec![JsonValue::Str("POST".to_string())])),
    ]);
    let map = codegen::build_endpoint_map(&vec![e1, e2]);
    assert_eq!(map.len(), 1);
    assert_eq!(map[0].0, "/api/a");
    assert_eq!(map[0].1, vec!["POST".to_string()]);
}

#[test]
fn emitter_resolver_applies_lower_casing() {
    let map = vec![
        ("/A".to_string(), vec![]),
        ("/login".to_string(), vec![]),
    ];
    assert_eq!(
        codegen::find_endpoint_for_function("LOGIN", &map),
        Some("/login".to_string())
    );
}

#[test]
fn emitter_never_redefines_builtin_primitive_names() {
    let function = JsonValue::Obj(vec![
        ("function_name".to_string(), JsonValue::Str("greet".to_string())),
        ("is_mutation".to_string(), JsonValue::Bool(false)),
        ("output_type_name".to_string(), JsonValue::Str("String".to_string())),
    ]);
    let code = codegen::generate_dynamic_typed_client(
        &vec![function],
        &vec![],
        "http://localhost:5150",
    )
    .unwrap();
    assert!(!code.contains("pub struct String"));
    assert!(code.contains("pub async fn greet(&self) -> Result<String, ::laz_client::RpcClientError>"));
}

#[test]
fn emitter_wraps_float_primitives_in_newtypes() {
    let function = JsonValue::Obj(vec![
        ("function_name".to_string(), JsonValue::Str("temperature".to_string())),
        ("is_mutation".to_string(), JsonValue::Bool(false)),
        ("output_type_name".to_string(), JsonValue::Str("Temp".to_string())),
        (
            "output_schema_json".to_string(),
            JsonValue::Str("{\"kind\":\"Primitive\",\"value\":\"f32\"}".to_string()),
        ),
    ]);
    let code = codegen::generate_dynamic_typed_client(
        &vec![function],
        &vec![],
        "http://localhost:5150",
    )
    .unwrap();
    assert!(code.contains("pub struct Temp(pub f32);"));
}

#[test]
fn emitter_resolver_falls_back_to_first_endpoint() {
    let map = vec![
        ("/api/zzz".to_string(), vec![]),
        ("/api/yyy".to_string(), vec![]),
    ];
    assert_eq!(
        codegen::find_endpoint_for_function("unrelated_name", &map),
        Some("/api/zzz".to_string())
    );
    let empty: Vec<(String, Vec<String>)> = vec![];
    assert_eq!(codegen::find_endpoint_for_function("anything", &empty), None);
}
