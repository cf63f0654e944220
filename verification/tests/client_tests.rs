use laz_rpc::client::{
    init_with_document, interpret_response, parse_endpoint_entry, parse_metadata_response,
    parse_rpc_function, EndpointDiscovery, LocoClient, RpcClientError, RpcFunction, ServerAddr,
};
use laz_rpc::json::JsonValue;

fn test_client(endpoints: Vec<EndpointDiscovery>) -> LocoClient {
    let mut client = LocoClient::new(ServerAddr { ip: "localhost".to_string(), port: 8080 });
    client.endpoints_discovery = endpoints;
    client
}

#[test]
fn mod_test_server_addr_base_url() {
    let addr = ServerAddr { ip: "localhost".to_string(), port: 5150 };
    assert_eq!(addr.base_url(), "http://localhost:5150");
}

#[test]
fn test_function_metadata_storage() {
    let function = RpcFunction {
        name: "test_function".to_string(),
        is_mutation: true,
        is_async: false,
        input_type_name: Some("TestInput".to_string()),
        output_type_name: "TestOutput".to_string(),
        params: vec![],
        input_schema_json: None,
        output_schema_json: Some(r#"{"kind": "Primitive", "value": "String"}"#.to_string()),
    };

    let mut client = LocoClient::new(ServerAddr { ip: "localhost".to_string(), port: 5150 });
    client.insert_function(function);

    assert!(client.get_function_metadata("test_function").is_some());
    assert_eq!(client.get_function_names().len(), 1);
}

#[test]
fn test_endpoints_discovery() {
    let endpoint1 = EndpointDiscovery {
        uri: "/api/auth/login".to_string(),
        methods: vec!["POST".to_string()],
    };
    let endpoint2 = EndpointDiscovery {
        uri: "/api/auth/hello".to_string(),
        methods: vec!["GET".to_string()],
    };

    let client = test_client(vec![endpoint1, endpoint2]);

    let discovered_endpoints = client.get_endpoints_discovery();
    assert_eq!(discovered_endpoints.len(), 2);
    assert_eq!(discovered_endpoints[0].uri, "/api/auth/login");
    assert_eq!(discovered_endpoints[0].methods, vec!["POST"]);
    assert_eq!(discovered_endpoints[1].uri, "/api/auth/hello");
    assert_eq!(discovered_endpoints[1].methods, vec!["GET"]);
}

#[test]
fn test_metadata_response_deserialization() {
    let json_response = r#"
    {
        "total_functions": 2,
        "functions": [
            {
                "function_name": "test_func1",
                "is_mutation": true,
                "is_async": false,
                "input_type_name": "Input1",
                "output_type_name": "Output1",
                "params": [],
                "input_schema_json": null,
                "output_schema_json": null
            }
        ],
        "endpoints_discovery": [
            {
                "uri": "/api/test",
                "methods": ["GET", "POST"]
            }
        ],
        "total_endpoints": 1
    }
    "#;

    let metadata = parse_metadata_response(json_response).unwrap();
    assert_eq!(metadata.total_functions, 2);
    assert_eq!(metadata.functions.len(), 1);
    assert_eq!(metadata.total_endpoints, 1);
    assert_eq!(metadata.endpoints_discovery.len(), 1);

    let endpoint = &metadata.endpoints_discovery[0];
    assert_eq!(endpoint.get("uri").unwrap().as_str().unwrap(), "/api/test");
    assert_eq!(endpoint.get("methods").unwrap().as_array().unwrap().len(), 2);
}

#[test]
fn resolver_prefers_substring_match() {
    let client = test_client(vec![
        EndpointDiscovery { uri: "/api/auth/login".to_string(), methods: vec!["POST".to_string()] },
        EndpointDiscovery { uri: "/api/health".to_string(), methods: vec!["GET".to_string()] },
    ]);
    assert_eq!(client.find_endpoint_for_function("login"), Some("/api/auth/login".to_string()));
}

#[test]
fn resolver_applies_kebab_conversion() {
    let client = test_client(vec![EndpointDiscovery {
        uri: "/api/register-user".to_string(),
        methods: vec!["POST".to_string()],
    }]);
    assert_eq!(
        client.find_endpoint_for_function("register_user"),
        Some("/api/register-user".to_string())
    );
}

#[test]
fn resolver_applies_lower_casing() {
    let client = test_client(vec![EndpointDiscovery {
        uri: "/api/auth/login".to_string(),
        methods: vec!["POST".to_string()],
    }]);
    assert_eq!(client.find_endpoint_for_function("LOGIN"), Some("/api/auth/login".to_string()));
}

#[test]
fn resolver_falls_back_to_candidate_paths() {
    let client = test_client(vec![EndpointDiscovery {
        uri: "/xyz".to_string(),
        methods: vec!["POST".to_string()],
    }]);
    // none of the substring tests hit "/xyz", but a candidate path is present
    let client2 = test_client(vec![
        EndpointDiscovery { uri: "/zzz".to_string(), methods: vec![] },
        EndpointDiscovery { uri: "/api/auth/sign-up".to_string(), methods: vec![] },
    ]);
    assert_eq!(client.find_endpoint_for_function("zz"), None);
    assert_eq!(
        client2.find_endpoint_for_function("sign_up"),
        Some("/api/auth/sign-up".to_string())
    );
}

#[test]
fn unresolved_function_fails_with_function_not_found() {
    let mut client = test_client(vec![EndpointDiscovery {
        uri: "/api/other".to_string(),
        methods: vec!["GET".to_string()],
    }]);
    assert_eq!(client.find_endpoint_for_function("missing_fn"), None);

    // an unknown function name fails at the lookup
    match client.call_function_plan("missing_fn") {
        Err(RpcClientError::FunctionNotFound(name)) => assert_eq!(name, "missing_fn"),
        other => panic!("expected FunctionNotFound, got {:?}", other),
    }

    // a known function without a resolvable endpoint fails at resolution
    client.insert_function(RpcFunction {
        name: "missing_fn".to_string(),
        is_mutation: false,
        is_async: false,
        input_type_name: None,
        output_type_name: "Out".to_string(),
        params: vec![],
        input_schema_json: None,
        output_schema_json: None,
    });
    match client.call_function_plan("missing_fn") {
        Err(RpcClientError::FunctionNotFound(detail)) => {
            assert_eq!(detail, "No endpoint found for function: missing_fn");
        }
        other => panic!("expected FunctionNotFound, got {:?}", other),
    }
}

#[test]
fn planned_url_contains_the_prefix_exactly_once() {
    let client = test_client(vec![]);
    // a discovered URI already carries the prefix: it is not prepended again
    let plan = client.call_endpoint_plan("/api/auth/login", true, None);
    assert_eq!(plan.url, "http://localhost:8080/api/auth/login");
    assert_eq!(plan.url.match_indices("/api").count(), 1);
    // a bare path gains the prefix, once
    let plan2 = client.call_endpoint_plan("/health", false, None);
    assert_eq!(plan2.url, "http://localhost:8080/api/health");
    assert_eq!(plan2.url.match_indices("/api").count(), 1);
}

#[test]
fn read_call_plan_encodes_query_parameters() {
    let client = test_client(vec![]);
    let params = JsonValue::Obj(vec![("verbose".to_string(), JsonValue::Bool(true))]);
    let plan = client.call_endpoint_plan("/health", false, Some(&params));
    assert_eq!(plan.url, "http://localhost:8080/api/health");
    assert!(!plan.is_mutation);
    assert_eq!(plan.body, None);
    assert_eq!(plan.query, vec![("verbose".to_string(), "true".to_string())]);
}

#[test]
fn read_call_plan_stringifies_numbers() {
    let client = test_client(vec![]);
    let params = JsonValue::Obj(vec![("n".to_string(), JsonValue::Num("5".to_string()))]);
    let plan = client.call_endpoint_plan("/count", false, Some(&params));
    assert_eq!(plan.query, vec![("n".to_string(), "5".to_string())]);
}

#[test]
fn read_call_plan_stringifies_nested_values_as_json_text() {
    let client = test_client(vec![]);
    let inner = JsonValue::Obj(vec![("a".to_string(), JsonValue::Num("1".to_string()))]);
    let params = JsonValue::Obj(vec![("filter".to_string(), inner)]);
    let plan = client.call_endpoint_plan("/list", false, Some(&params));
    assert_eq!(plan.query, vec![("filter".to_string(), "{\"a\":1}".to_string())]);
}

#[test]
fn base_url_renders_any_port() {
    let addr = ServerAddr { ip: "10.0.0.1".to_string(), port: 0 };
    assert_eq!(addr.base_url(), "http://10.0.0.1:0");
    let addr2 = ServerAddr { ip: "h".to_string(), port: 65535 };
    assert_eq!(addr2.base_url(), "http://h:65535");
}

#[test]
fn decimal_text_utilities_behave_exactly() {
    assert_eq!(laz_rpc::text::u64_to_text(0), "0");
    assert_eq!(laz_rpc::text::u64_to_text(9070), "9070");
    assert_eq!(laz_rpc::text::parse_usize("42"), Some(42));
    assert_eq!(laz_rpc::text::parse_usize(""), None);
    assert_eq!(laz_rpc::text::parse_usize("4x2"), None);
    assert_eq!(laz_rpc::text::parse_usize("99999999999999999999999999"), None);
    assert_eq!(laz_rpc::text::kebab("a_b_c"), "a-b-c");
    assert!(laz_rpc::text::str_contains("/api/auth/login", "login"));
    assert!(!laz_rpc::text::str_contains("/api", "health"));
    assert!(laz_rpc::text::str_contains("anything", ""));
}

#[test]
fn write_call_plan_carries_json_body() {
    let client = test_client(vec![]);
    let params = JsonValue::Obj(vec![("name".to_string(), JsonValue::Str("a".to_string()))]);
    let plan = client.call_endpoint_plan("/register", true, Some(&params));
    assert_eq!(plan.url, "http://localhost:8080/api/register");
    assert!(plan.is_mutation);
    assert!(plan.query.is_empty());
    assert_eq!(plan.body, Some("{\"name\":\"a\"}".to_string()));
}

#[test]
fn failing_status_maps_to_server_error() {
    match interpret_response("/x", 404, "not found") {
        Err(RpcClientError::ServerError(msg)) => {
            assert!(msg.contains("404"));
            assert!(msg.contains("not found"));
            assert_eq!(msg, "Endpoint /x failed with status 404: not found");
        }
        other => panic!("expected ServerError, got {:?}", other),
    }
}

#[test]
fn successful_status_parses_body_as_json() {
    let value = interpret_response("/x", 200, "{\"ok\": true}").unwrap();
    assert_eq!(value.get("ok").unwrap().as_bool(), Some(true));

    match interpret_response("/x", 200, "not json") {
        Err(RpcClientError::JsonError(_)) => {}
        other => panic!("expected JsonError, got {:?}", other),
    }
}

#[test]
fn degraded_init_yields_usable_empty_client() {
    let addr = ServerAddr { ip: "localhost".to_string(), port: 8080 };
    let fetched = Err(RpcClientError::ServerError(
        "Failed to fetch metadata: HTTP 500".to_string(),
    ));
    let outcome = init_with_document(addr, fetched);
    assert!(outcome.degraded);
    assert!(outcome.cause.is_some());
    assert!(outcome.client.get_function_names().is_empty());
    assert!(outcome.client.get_endpoints_discovery().is_empty());
    // a degraded client still plans direct endpoint calls
    let plan = outcome.client.call_endpoint_plan("/ping", false, None);
    assert_eq!(plan.url, "http://localhost:8080/api/ping");
}

#[test]
fn successful_init_loads_functions_and_endpoints() {
    let text = r#"
    {
        "total_functions": 1,
        "functions": [
            {
                "function_name": "login",
                "is_mutation": true,
                "is_async": true,
                "input_type_name": "LoginParams",
                "output_type_name": "AuthResponse",
                "params": [],
                "input_schema_json": null,
                "output_schema_json": null
            }
        ],
        "endpoints_discovery": [
            { "uri": "/api/auth/login", "methods": ["POST"] }
        ],
        "total_endpoints": 1
    }
    "#;
    let addr = ServerAddr { ip: "localhost".to_string(), port: 8080 };
    let outcome = init_with_document(addr, Ok(text.to_string()));
    assert!(!outcome.degraded);
    assert!(outcome.cause.is_none());
    assert_eq!(outcome.client.get_function_names(), vec!["login".to_string()]);
    let f = outcome.client.get_function_metadata("login").unwrap();
    assert!(f.is_mutation);
    assert_eq!(f.output_type_name, "AuthResponse");
    let (endpoint, is_mutation) = outcome.client.call_function_plan("login").unwrap();
    assert_eq!(endpoint, "/api/auth/login");
    assert!(is_mutation);
    // planning the resolved endpoint composes a URL with the prefix exactly once
    let plan = outcome.client.call_endpoint_plan(endpoint.as_str(), is_mutation, None);
    assert_eq!(plan.url, "http://localhost:8080/api/auth/login");
    assert_eq!(plan.url.match_indices("/api").count(), 1);
}

#[test]
fn malformed_function_entry_is_rejected() {
    let entry = JsonValue::Obj(vec![("is_mutation".to_string(), JsonValue::Bool(true))]);
    match parse_rpc_function(&entry) {
        Err(RpcClientError::InvalidParameter(msg)) => assert_eq!(msg, "Missing function_name"),
        other => panic!("expected InvalidParameter, got {:?}", other),
    }
    let entry2 = JsonValue::Obj(vec![(
        "function_name".to_string(),
        JsonValue::Str("f".to_string()),
    )]);
    match parse_rpc_function(&entry2) {
        Err(RpcClientError::InvalidParameter(msg)) => assert_eq!(msg, "Missing output_type_name"),
        other => panic!("expected InvalidParameter, got {:?}", other),
    }
}

#[test]
fn malformed_endpoint_entry_is_rejected() {
    let entry = JsonValue::Obj(vec![]);
    match parse_endpoint_entry(&entry) {
        Err(RpcClientError::InvalidParameter(msg)) => assert_eq!(msg, "Missing endpoint uri"),
        other => panic!("expected InvalidParameter, got {:?}", other),
    }
    let entry2 = JsonValue::Obj(vec![("uri".to_string(), JsonValue::Str("/a".to_string()))]);
    match parse_endpoint_entry(&entry2) {
        Err(RpcClientError::InvalidParameter(msg)) => assert_eq!(msg, "Missing endpoint methods"),
        other => panic!("expected InvalidParameter, got {:?}", other),
    }
}

#[test]
fn unreadable_metadata_text_is_a_server_error() {
    match parse_metadata_response("this is not json") {
        Err(e @ RpcClientError::ServerError(_)) => {
            assert_eq!(e.message(), "Server error: Failed to parse metadata JSON");
        }
        other => panic!("expected ServerError, got {:?}", other),
    }
}

#[test]
fn error_messages_carry_their_detail() {
    let e = RpcClientError::FunctionNotFound("login".to_string());
    assert_eq!(e.message(), "Function not found: login");
    let e2 = RpcClientError::RequestError("connection refused".to_string());
    assert_eq!(e2.message(), "HTTP request failed: connection refused");
}
