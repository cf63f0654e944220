use laz_rpc::codec::{decode_schema, encode_schema};
use laz_rpc::typemap;
use laz_rpc::types::{
    EnumSchema, FieldSchema, StructSchema, TypeSchema, VariantSchema,
};

fn sample_schema() -> TypeSchema {
    TypeSchema::Struct(StructSchema {
        ty_name: "AuthResponse".to_string(),
        fields: vec![
            FieldSchema {
                field_name: "token".to_string(),
                field_type: Box::new(TypeSchema::Primitive("String".to_string())),
                optional: false,
            },
            FieldSchema {
                field_name: "roles".to_string(),
                field_type: Box::new(TypeSchema::Container {
                    container_type: "Vec".to_string(),
                    inner_type: Box::new(TypeSchema::Primitive("String".to_string())),
                }),
                optional: true,
            },
            FieldSchema {
                field_name: "kind".to_string(),
                field_type: Box::new(TypeSchema::Enum(EnumSchema {
                    ty_name: "Kind".to_string(),
                    variants: vec![
                        VariantSchema { variant_name: "User".to_string(), inner_schema: None },
                        VariantSchema {
                            variant_name: "Admin".to_string(),
                            inner_schema: Some(Box::new(TypeSchema::Primitive(
                                "i32".to_string(),
                            ))),
                        },
                    ],
                })),
                optional: false,
            },
            FieldSchema {
                field_name: "extra".to_string(),
                field_type: Box::new(TypeSchema::Tuple(vec![
                    Box::new(TypeSchema::Primitive("bool".to_string())),
                    Box::new(TypeSchema::Opaque("Mystery".to_string())),
                ])),
                optional: false,
            },
        ],
    })
}

#[test]
fn test_type_schema_creation() {
    let schema = TypeSchema::Primitive("String".to_string());
    assert!(matches!(schema, TypeSchema::Primitive(_)));
}

#[test]
fn encoding_then_decoding_gives_the_schema_back() {
    let schema = sample_schema();
    let encoded = encode_schema(&schema);
    let decoded = decode_schema(&encoded).expect("an encoded schema must decode");
    assert_eq!(decoded, schema);
}

#[test]
fn encoding_then_decoding_primitives_and_opaques() {
    for schema in [
        TypeSchema::Primitive("i64".to_string()),
        TypeSchema::Opaque("Unknown".to_string()),
    ] {
        let encoded = encode_schema(&schema);
        assert_eq!(decode_schema(&encoded), Some(schema));
    }
}

#[test]
fn shared_output_type_is_defined_once() {
    let schema_json = "{\"kind\": \"Struct\", \"value\": {\"type_name\": \"AuthResponse\", \"fields\": [{\"field_name\": \"token\", \"field_type\": {\"kind\": \"Primitive\", \"value\": \"String\"}, \"optional\": false}]}}";
    let login = typemap::FunctionMetadata {
        function_name: "login".to_string(),
        is_mutation: true,
        is_async: true,
        input_type_name: None,
        output_type_name: "AuthResponse".to_string(),
        input_schema_json: None,
        output_schema_json: Some(schema_json.to_string()),
    };
    let refresh = typemap::FunctionMetadata {
        function_name: "refresh".to_string(),
        is_mutation: true,
        is_async: true,
        input_type_name: None,
        output_type_name: "AuthResponse".to_string(),
        input_schema_json: None,
        output_schema_json: Some(schema_json.to_string()),
    };
    let generated = typemap::generate_types_from_metadata(&vec![login, refresh]);
    let count = generated.iter().filter(|g| g.name == "AuthResponse").count();
    assert_eq!(count, 1);
    assert_eq!(generated.len(), 1);
    assert!(generated[0].definition.contains("pub struct AuthResponse"));
    assert!(generated[0].definition.contains("pub token: String,"));
}

#[test]
fn typed_signature_and_body_render_exactly() {
    let sig = typemap::generate_typed_function_signature(
        "login",
        true,
        Some("LoginParams"),
        "AuthResponse",
    );
    assert_eq!(
        sig,
        "pub async fn login(&self, params: LoginParams) -> Result<AuthResponse, ::laz_client::RpcClientError>"
    );
    let sig2 = typemap::generate_typed_function_signature("ping", false, None, "");
    assert_eq!(sig2, "pub async fn ping(&self) -> Result<(), ::laz_client::RpcClientError>");

    let body = typemap::generate_typed_function_body("ping", None, "");
    assert_eq!(
        body,
        "    self.inner.call_function(\"ping\", None).await?;\n        Ok(())\n"
    );
    let body2 = typemap::generate_typed_function_body("login", Some("LoginParams"), "AuthResponse");
    assert!(body2.contains("self.inner.call_function(\"login\", Some(serde_json::to_value(&params)?)).await?"));
    assert!(body2.contains("serde_json::from_value(result)"));
}

#[test]
fn mapper_falls_back_to_untyped_wrapper() {
    let opaque = typemap::FunctionMetadata {
        function_name: "fetch_blob".to_string(),
        is_mutation: false,
        is_async: true,
        input_type_name: None,
        output_type_name: "Blob".to_string(),
        input_schema_json: None,
        output_schema_json: None,
    };
    let generated = typemap::generate_types_from_metadata(&vec![opaque]);
    assert_eq!(generated.len(), 1);
    assert_eq!(generated[0].name, "Blob");
    assert_eq!(
        generated[0].definition,
        "#[derive(Debug, Clone, serde::Serialize, serde::Deserialize)]\npub struct Blob(pub serde_json::Value);\n"
    );
}

#[test]
fn field_types_map_to_target_language_idioms() {
    // the container payload is nested under "value", exactly as the wire
    // codec of this crate's server emits it
    let field_schema = "{\"kind\": \"Struct\", \"value\": {\"type_name\": \"Profile\", \"fields\": [{\"field_name\": \"tags\", \"field_type\": {\"kind\": \"Container\", \"value\": {\"container_type\": \"Vec\", \"inner_type\": {\"kind\": \"Primitive\", \"value\": \"String\"}}}, \"optional\": false},{\"field_name\": \"note\", \"field_type\": {\"kind\": \"Primitive\", \"value\": \"Custom\"}, \"optional\": true}]}}";
    let f = typemap::FunctionMetadata {
        function_name: "profile".to_string(),
        is_mutation: false,
        is_async: true,
        input_type_name: None,
        output_type_name: "Profile".to_string(),
        input_schema_json: None,
        output_schema_json: Some(field_schema.to_string()),
    };
    let generated = typemap::generate_types_from_metadata(&vec![f]);
    assert_eq!(generated.len(), 1);
    assert!(generated[0].definition.contains("pub tags: Vec<String>,"));
    assert!(generated[0].definition.contains("pub note: Option<serde_json::Value>,"));
}
