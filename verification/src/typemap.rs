//! The type mapper: turns schema payloads from the server's metadata into
//! target-language type definition text, one definition per type name across
//! a whole generation run.

use vstd::prelude::*;
use vstd::string::StringExecFns;
use crate::json::{lemma_get_decreases, JsonModel, JsonValue};

verus! {

/// Schema information as one function entry of the metadata document carries
/// it: a kind tag and its payload.
#[derive(Debug)]
pub struct TypeSchema {
    pub kind: String,
    pub value: JsonValue,
}

/// Function metadata as the type mapper consumes it.
#[derive(Debug)]
pub struct FunctionMetadata {
    pub function_name: String,
    pub is_mutation: bool,
    pub is_async: bool,
    pub input_type_name: Option<String>,
    pub output_type_name: String,
    pub input_schema_json: Option<String>,
    pub output_schema_json: Option<String>,
}

/// The model of one such entry.
pub struct FunctionMetadataModel {
    pub function_name: Seq<char>,
    pub is_mutation: bool,
    pub is_async: bool,
    pub input_type_name: Option<Seq<char>>,
    pub output_type_name: Seq<char>,
    pub input_schema_json: Option<Seq<char>>,
    pub output_schema_json: Option<Seq<char>>,
}

impl View for FunctionMetadata {
    type V = FunctionMetadataModel;

    open spec fn view(&self) -> FunctionMetadataModel {
        FunctionMetadataModel {
            function_name: self.function_name@,
            is_mutation: self.is_mutation,
            is_async: self.is_async,
            input_type_name: match self.input_type_name {
                Some(s) => Some(s@),
                None => None,
            },
            output_type_name: self.output_type_name@,
            input_schema_json: match self.input_schema_json {
                Some(s) => Some(s@),
                None => None,
            },
            output_schema_json: match self.output_schema_json {
                Some(s) => Some(s@),
                None => None,
            },
        }
    }
}

/// One field of a generated type.
#[derive(Debug)]
pub struct TypeField {
    pub name: String,
    pub field_type: String,
    pub optional: bool,
}

/// The model of one generated field.
pub struct TypeFieldModel {
    pub name: Seq<char>,
    pub field_type: Seq<char>,
    pub optional: bool,
}

impl View for TypeField {
    type V = TypeFieldModel;

    open spec fn view(&self) -> TypeFieldModel {
        TypeFieldModel { name: self.name@, field_type: self.field_type@, optional: self.optional }
    }
}

/// One generated type definition.
#[derive(Debug)]
pub struct GeneratedType {
    pub name: String,
    pub definition: String,
    pub is_struct: bool,
    pub fields: Vec<TypeField>,
}

/// The model of one generated type definition.
pub struct GeneratedTypeModel {
    pub name: Seq<char>,
    pub definition: Seq<char>,
    pub is_struct: bool,
    pub fields: Seq<TypeFieldModel>,
}

impl View for GeneratedType {
    type V = GeneratedTypeModel;

    open spec fn view(&self) -> GeneratedTypeModel {
        GeneratedTypeModel {
            name: self.name@,
            definition: self.definition@,
            is_struct: self.is_struct,
            fields: Seq::new(self.fields.len() as nat, |i: int| self.fields[i]@),
        }
    }
}

/// The derive header every generated definition starts with.
pub open spec fn derive_header() -> Seq<char> {
    "#[derive(Debug, Clone, serde::Serialize, serde::Deserialize)]\n"@
}

/// The definition text of a fallback wrapper around an untyped JSON value.
pub open spec fn basic_type_def_of(name: Seq<char>) -> Seq<char> {
    derive_header() + "pub struct "@ + name + "(pub serde_json::Value);\n"@
}

/// A wrapper around an untyped JSON value, for a type whose structure is
/// unknown.
fn generate_basic_type(name: &str) -> (r: GeneratedType)
    ensures
        r@.name == name@,
        r@.definition == basic_type_def_of(name@),
        r@.is_struct,
        r@.fields.len() == 1,
        r@.fields[0] == (TypeFieldModel {
            name: "value"@,
            field_type: "serde_json::Value"@,
            optional: false,
        }),
{
    let mut definition = String::from_str(
        "#[derive(Debug, Clone, serde::Serialize, serde::Deserialize)]\n",
    );
    definition.append("pub struct ");
    definition.append(name);
    definition.append("(pub serde_json::Value);\n");
    let mut fields: Vec<TypeField> = Vec::new();
    fields.push(
        TypeField {
            name: String::from_str("value"),
            field_type: String::from_str("serde_json::Value"),
            optional: false,
        },
    );
    let r = GeneratedType { name: name.to_owned(), definition, is_struct: true, fields };
    proof {
        assert(r@.fields =~= seq![
            TypeFieldModel { name: "value"@, field_type: "serde_json::Value"@, optional: false },
        ]);
    }
    r
}

/// The six built-in primitive names the mapper passes through unchanged.
pub open spec fn is_builtin_primitive(n: Seq<char>) -> bool {
    n == "String"@ || n == "i32"@ || n == "i64"@ || n == "bool"@ || n == "f32"@ || n == "f64"@
}

/// Whether a name is one of the built-in primitives.
pub(crate) fn builtin_primitive(name: &str) -> (r: bool)
    ensures
        r == is_builtin_primitive(name@),
{
    crate::text::str_eq(name, "String") || crate::text::str_eq(name, "i32") || crate::text::str_eq(
        name,
        "i64",
    ) || crate::text::str_eq(name, "bool") || crate::text::str_eq(name, "f32")
        || crate::text::str_eq(name, "f64")
}

/// The target-language type text for one field's schema payload: built-in
/// primitives by name, struct references by their type name, lists and
/// optionals by the matching container, anything else as an untyped JSON
/// value.
pub open spec fn rust_type_of(m: JsonModel) -> Seq<char>
    decreases m,
    via rust_type_of_dec
{
    match m.get("kind"@) {
        Some(JsonModel::Str(kind)) => {
            if kind == "Primitive"@ {
                match m.get("value"@) {
                    Some(JsonModel::Str(v)) => if is_builtin_primitive(v) {
                        v
                    } else {
                        "serde_json::Value"@
                    },
                    _ => "serde_json::Value"@,
                }
            } else if kind == "Struct"@ {
                match m.get("value"@) {
                    Some(value) => match value.get("type_name"@) {
                        Some(JsonModel::Str(tn)) => tn,
                        _ => "serde_json::Value"@,
                    },
                    _ => "serde_json::Value"@,
                }
            } else if kind == "Container"@ {
                match m.get("value"@) {
                    Some(value) => {
                        match value.get("container_type"@) {
                            Some(JsonModel::Str(ct)) => {
                                match value.get("inner_type"@) {
                                    Some(inner) => {
                                        if ct == "Vec"@ {
                                            "Vec<"@ + rust_type_of(inner) + ">"@
                                        } else if ct == "Option"@ {
                                            "Option<"@ + rust_type_of(inner) + ">"@
                                        } else {
                                            "serde_json::Value"@
                                        }
                                    },
                                    None => "serde_json::Value"@,
                                }
                            },
                            _ => "serde_json::Value"@,
                        }
                    },
                    _ => "serde_json::Value"@,
                }
            } else {
                "serde_json::Value"@
            }
        },
        _ => "serde_json::Value"@,
    }
}

#[via_fn]
proof fn rust_type_of_dec(m: JsonModel) {
    lemma_get_decreases(m, "value"@);
    match m.get("value"@) {
        Some(value) => {
            lemma_get_decreases(value, "inner_type"@);
        },
        None => {},
    }
}

/// Renders the target-language type text for one field's schema payload.
pub fn get_field_type_string(field_type_info: &JsonValue) -> (r: String)
    ensures
        r@ == rust_type_of(field_type_info@),
    decreases *field_type_info,
{
    let kind = match field_type_info.get("kind") {
        Some(k) => match k.as_str() {
            Some(s) => s,
            None => {
                return String::from_str("serde_json::Value");
            },
        },
        None => {
            return String::from_str("serde_json::Value");
        },
    };
    if crate::text::str_eq(kind.as_str(), "Primitive") {
        match field_type_info.get("value") {
            Some(v) => match v.as_str() {
                Some(s) => {
                    if builtin_primitive(s.as_str()) {
                        s.clone()
                    } else {
                        String::from_str("serde_json::Value")
                    }
                },
                None => String::from_str("serde_json::Value"),
            },
            None => String::from_str("serde_json::Value"),
        }
    } else if crate::text::str_eq(kind.as_str(), "Struct") {
        match field_type_info.get("value") {
            Some(value) => match value.get("type_name") {
                Some(tn) => match tn.as_str() {
                    Some(s) => s.clone(),
                    None => String::from_str("serde_json::Value"),
                },
                None => String::from_str("serde_json::Value"),
            },
            None => String::from_str("serde_json::Value"),
        }
    } else if crate::text::str_eq(kind.as_str(), "Container") {
        let value = match field_type_info.get("value") {
            Some(v) => v,
            None => {
                return String::from_str("serde_json::Value");
            },
        };
        let ct = match value.get("container_type") {
            Some(c) => match c.as_str() {
                Some(s) => s,
                None => {
                    return String::from_str("serde_json::Value");
                },
            },
            None => {
                return String::from_str("serde_json::Value");
            },
        };
        let inner = match value.get("inner_type") {
            Some(w) => w,
            None => {
                return String::from_str("serde_json::Value");
            },
        };
        if crate::text::str_eq(ct.as_str(), "Vec") {
            let inner_text = get_field_type_string(inner);
            let mut out = String::from_str("Vec<");
            out.append(inner_text.as_str());
            out.append(">");
            out
        } else if crate::text::str_eq(ct.as_str(), "Option") {
            let inner_text = get_field_type_string(inner);
            let mut out = String::from_str("Option<");
            out.append(inner_text.as_str());
            out.append(">");
            out
        } else {
            String::from_str("serde_json::Value")
        }
    } else {
        String::from_str("serde_json::Value")
    }
}

/// The text of a generated call wrapper's signature: one `params` argument
/// when the function declares an input type, and the declared output type as
/// result, unit when there is none.
pub open spec fn typed_signature_of(
    func_name: Seq<char>,
    input_type_name: Option<Seq<char>>,
    output_type_name: Seq<char>,
) -> Seq<char> {
    let ret = if output_type_name.len() == 0 {
        "()"@
    } else {
        output_type_name
    };
    match input_type_name {
        Some(input) => "pub async fn "@ + func_name + "(&self, params: "@ + input
            + ") -> Result<"@ + ret + ", ::laz_client::RpcClientError>"@,
        None => "pub async fn "@ + func_name + "(&self) -> Result<"@ + ret
            + ", ::laz_client::RpcClientError>"@,
    }
}

/// Renders a generated call wrapper's signature.
pub fn generate_typed_function_signature(
    func_name: &str,
    is_mutation: bool,
    input_type_name: Option<&str>,
    output_type_name: &str,
) -> (r: String)
    ensures
        r@ == typed_signature_of(
            func_name@,
            (match input_type_name {
                Some(s) => Some(s@),
                None => None,
            }),
            output_type_name@,
        ),
{
    let ret: &str = if output_type_name.is_empty() {
        "()"
    } else {
        output_type_name
    };
    // the verb family changes the body, never the signature
    let _ = is_mutation;
    match input_type_name {
        Some(input) => {
            let mut out = String::from_str("pub async fn ");
            out.append(func_name);
            out.append("(&self, params: ");
            out.append(input);
            out.append(") -> Result<");
            out.append(ret);
            out.append(", ::laz_client::RpcClientError>");
            out
        },
        None => {
            let mut out = String::from_str("pub async fn ");
            out.append(func_name);
            out.append("(&self) -> Result<");
            out.append(ret);
            out.append(", ::laz_client::RpcClientError>");
            out
        },
    }
}

/// The text of a generated call wrapper's body: serialize the input when
/// there is one, call the function by name, and decode the result unless the
/// output is unit.
pub open spec fn typed_body_of(
    func_name: Seq<char>,
    input_type_name: Option<Seq<char>>,
    output_type_name: Seq<char>,
) -> Seq<char> {
    let call = match input_type_name {
        Some(_) => "self.inner.call_function(\""@ + func_name
            + "\", Some(serde_json::to_value(&params)?)).await?"@,
        None => "self.inner.call_function(\""@ + func_name + "\", None).await?"@,
    };
    let ret = if output_type_name.len() == 0 {
        call + ";\n        Ok(())"@
    } else {
        "let result = "@ + call
            + ";\n        serde_json::from_value(result).map_err(|e| ::laz_client::RpcClientError::JsonError(e))"@
    };
    "    "@ + ret + "\n"@
}

/// Renders a generated call wrapper's body.
pub fn generate_typed_function_body(
    func_name: &str,
    input_type_name: Option<&str>,
    output_type_name: &str,
) -> (r: String)
    ensures
        r@ == typed_body_of(
            func_name@,
            (match input_type_name {
                Some(s) => Some(s@),
                None => None,
            }),
            output_type_name@,
        ),
{
    let mut call = String::from_str("self.inner.call_function(\"");
    call.append(func_name);
    match input_type_name {
        Some(_) => {
            call.append("\", Some(serde_json::to_value(&params)?)).await?");
        },
        None => {
            call.append("\", None).await?");
        },
    }
    let mut out = String::from_str("    ");
    if output_type_name.is_empty() {
        out.append(call.as_str());
        out.append(";\n        Ok(())");
    } else {
        out.append("let result = ");
        out.append(call.as_str());
        out.append(
            ";\n        serde_json::from_value(result).map_err(|e| ::laz_client::RpcClientError::JsonError(e))",
        );
    }
    out.append("\n");
    out
}

/// One line of a generated struct body.
pub open spec fn field_line_of(f: TypeFieldModel) -> Seq<char> {
    if f.optional {
        "    pub "@ + f.name + ": Option<"@ + f.field_type + ">,\n"@
    } else {
        "    pub "@ + f.name + ": "@ + f.field_type + ",\n"@
    }
}

/// The lines of a generated struct body, in field order.
pub open spec fn field_lines_of(fs: Seq<TypeFieldModel>) -> Seq<char>
    decreases fs.len(),
{
    if fs.len() == 0 {
        Seq::empty()
    } else {
        field_lines_of(fs.drop_last()) + field_line_of(fs.last())
    }
}

/// The definition text of a generated struct.
pub open spec fn struct_def_text(tn: Seq<char>, fs: Seq<TypeFieldModel>) -> Seq<char> {
    derive_header() + "pub struct "@ + tn + " {\n"@ + field_lines_of(fs) + "}\n"@
}

/// What one field of a struct schema denotes: its name is required, its type
/// text computed from its payload, absence of `optional` counting as false.
pub open spec fn struct_field_of(j: JsonModel) -> Result<TypeFieldModel, Seq<char>> {
    if !(j.get("field_name"@) matches Some(JsonModel::Str(_))) {
        Err("Missing field_name"@)
    } else if j.get("field_type"@) is None {
        Err("Missing field_type"@)
    } else {
        Ok(
            TypeFieldModel {
                name: j.get("field_name"@)->0->Str_0,
                field_type: rust_type_of(j.get("field_type"@)->0),
                optional: crate::client::opt_bool(j.get("optional"@)),
            },
        )
    }
}

/// What a struct schema's field list denotes, the first malformed field
/// failing the list.
pub open spec fn struct_fields_of(items: Seq<JsonModel>) -> Result<Seq<TypeFieldModel>, Seq<char>>
    decreases items.len(),
{
    if items.len() == 0 {
        Ok(Seq::empty())
    } else {
        match struct_field_of(items[0]) {
            Err(e) => Err(e),
            Ok(f) => match struct_fields_of(items.drop_first()) {
                Err(e) => Err(e),
                Ok(rest) => Ok(seq![f] + rest),
            },
        }
    }
}

proof fn lemma_struct_fields_complete(items: Seq<JsonModel>, fs: Seq<TypeFieldModel>)
    requires
        items.len() == fs.len(),
        forall|k: int|
            0 <= k < items.len() ==> struct_field_of(#[trigger] items[k]) == Ok::<
                TypeFieldModel,
                Seq<char>,
            >(fs[k]),
    ensures
        struct_fields_of(items) == Ok::<Seq<TypeFieldModel>, Seq<char>>(fs),
    decreases items.len(),
{
    if items.len() == 0 {
        assert(fs =~= Seq::<TypeFieldModel>::empty());
    } else {
        lemma_struct_fields_complete(items.drop_first(), fs.drop_first());
        assert(seq![fs[0]] + fs.drop_first() =~= fs);
    }
}

proof fn lemma_struct_fields_fail(items: Seq<JsonModel>, i: int)
    requires
        0 <= i < items.len(),
        forall|k: int| 0 <= k < i ==> struct_field_of(#[trigger] items[k]) is Ok,
        struct_field_of(items[i]) is Err,
    ensures
        struct_fields_of(items) == Err::<Seq<TypeFieldModel>, Seq<char>>(
            struct_field_of(items[i])->Err_0,
        ),
    decreases i,
{
    if i > 0 {
        lemma_struct_fields_fail(items.drop_first(), i - 1);
    }
}

/// The field items of a schema payload; anything but a list counts as none.
pub open spec fn list_member_of(value: JsonModel, key: Seq<char>) -> Seq<JsonModel> {
    match value.get(key) {
        Some(JsonModel::Arr(items)) => items,
        _ => Seq::empty(),
    }
}

/// What a struct schema generates: a record under the requested name with
/// one member per field. The definition carries the requested name, so one
/// generation run emits each processed name exactly once.
pub open spec fn generated_struct_of(name: Seq<char>, schema: JsonModel) -> Result<
    GeneratedTypeModel,
    Seq<char>,
> {
    match schema.get("value"@) {
        None => Err("Missing value in struct schema"@),
        Some(value) => {
            match struct_fields_of(list_member_of(value, "fields"@)) {
                Err(e) => Err(e),
                Ok(fs) => Ok(
                    GeneratedTypeModel {
                        name,
                        definition: struct_def_text(name, fs),
                        is_struct: true,
                        fields: fs,
                    },
                ),
            }
        },
    }
}

/// Renders a struct definition from its schema payload.
fn generate_struct_type(name: &str, schema: &JsonValue) -> (r: Result<GeneratedType, String>)
    ensures
        (match r {
            Ok(g) => generated_struct_of(name@, schema@) == Ok::<GeneratedTypeModel, Seq<char>>(
                g@,
            ),
            Err(e) => generated_struct_of(name@, schema@) == Err::<GeneratedTypeModel, Seq<char>>(
                e@,
            ),
        }),
{
    let value = match schema.get("value") {
        Some(v) => v,
        None => {
            return Err(String::from_str("Missing value in struct schema"));
        },
    };
    let tn: String = name.to_owned();
    let empty_items: Vec<JsonValue> = Vec::new();
    let items: &Vec<JsonValue> = match value.get("fields") {
        Some(fv) => match fv.as_array() {
            Some(a) => a,
            None => &empty_items,
        },
        None => &empty_items,
    };
    let ghost js = crate::json::arr_model(items@);
    proof {
        assert(js =~= list_member_of(value@, "fields"@));
    }
    let mut fields: Vec<TypeField> = Vec::new();
    let mut i: usize = 0;
    while i < items.len()
        invariant
            i <= items@.len(),
            js == crate::json::arr_model(items@),
            js.len() == items@.len(),
            schema@.get("value"@) == Some(value@),
            js == list_member_of(value@, "fields"@),
            fields@.len() == i as int,
            forall|k: int|
                0 <= k < i ==> struct_field_of(js[k]) == Ok::<TypeFieldModel, Seq<char>>(
                    #[trigger] fields@[k]@,
                ),
        decreases items@.len() - i,
    {
        let fv = &items[i];
        let fname = match fv.get("field_name") {
            Some(t) => match t.as_str() {
                Some(s) => s.clone(),
                None => {
                    proof {
                        assert forall|k: int| 0 <= k < i implies struct_field_of(
                            #[trigger] js[k],
                        ) is Ok by {
                            assert(struct_field_of(js[k]) == Ok::<TypeFieldModel, Seq<char>>(
                                fields@[k]@,
                            ));
                        }
                        lemma_struct_fields_fail(js, i as int);
                    }
                    return Err(String::from_str("Missing field_name"));
                },
            },
            None => {
                proof {
                    assert forall|k: int| 0 <= k < i implies struct_field_of(
                        #[trigger] js[k],
                    ) is Ok by {
                        assert(struct_field_of(js[k]) == Ok::<TypeFieldModel, Seq<char>>(
                            fields@[k]@,
                        ));
                    }
                    lemma_struct_fields_fail(js, i as int);
                }
                return Err(String::from_str("Missing field_name"));
            },
        };
        let ft_text = match fv.get("field_type") {
            Some(ft) => get_field_type_string(ft),
            None => {
                proof {
                    assert forall|k: int| 0 <= k < i implies struct_field_of(
                        #[trigger] js[k],
                    ) is Ok by {
                        assert(struct_field_of(js[k]) == Ok::<TypeFieldModel, Seq<char>>(
                            fields@[k]@,
                        ));
                    }
                    lemma_struct_fields_fail(js, i as int);
                }
                return Err(String::from_str("Missing field_type"));
            },
        };
        let optional = match fv.get("optional") {
            Some(t) => match t.as_bool() {
                Some(b) => b,
                None => false,
            },
            None => false,
        };
        fields.push(TypeField { name: fname, field_type: ft_text, optional });
        i = i + 1;
    }
    let ghost fmodels = Seq::new(fields@.len() as nat, |k: int| fields@[k]@);
    proof {
        assert forall|k: int| 0 <= k < js.len() implies struct_field_of(#[trigger] js[k]) == Ok::<
            TypeFieldModel,
            Seq<char>,
        >(fmodels[k]) by {
            assert(struct_field_of(js[k]) == Ok::<TypeFieldModel, Seq<char>>(fields@[k]@));
        }
        lemma_struct_fields_complete(js, fmodels);
    }
    let mut definition = String::from_str(
        "#[derive(Debug, Clone, serde::Serialize, serde::Deserialize)]\n",
    );
    definition.append("pub struct ");
    definition.append(tn.as_str());
    definition.append(" {\n");
    let ghost def_head = derive_header() + "pub struct "@ + tn@ + " {\n"@;
    proof {
        assert(definition@ =~= def_head + field_lines_of(fmodels.take(0)));
    }
    let mut j: usize = 0;
    while j < fields.len()
        invariant
            j <= fields@.len(),
            fmodels.len() == fields@.len(),
            forall|k: int| 0 <= k < fields@.len() ==> fmodels[k] == #[trigger] fields@[k]@,
            definition@ == def_head + field_lines_of(fmodels.take(j as int)),
        decreases fields@.len() - j,
    {
        if fields[j].optional {
            definition.append("    pub ");
            definition.append(fields[j].name.as_str());
            definition.append(": Option<");
            definition.append(fields[j].field_type.as_str());
            definition.append(">,\n");
        } else {
            definition.append("    pub ");
            definition.append(fields[j].name.as_str());
            definition.append(": ");
            definition.append(fields[j].field_type.as_str());
            definition.append(",\n");
        }
        proof {
            assert(fmodels.take(j + 1).drop_last() =~= fmodels.take(j as int));
            assert(fmodels.take(j + 1).last() == fmodels[j as int]);
            assert(fmodels[j as int] == fields@[j as int]@);
            assert(definition@ =~= def_head + field_lines_of(fmodels.take(j + 1)));
        }
        j = j + 1;
    }
    definition.append("}\n");
    let g = GeneratedType { name: tn, definition, is_struct: true, fields };
    proof {
        assert(fmodels.take(fmodels.len() as int) =~= fmodels);
        assert(g@.fields =~= fmodels);
        assert(g@.definition =~= struct_def_text(tn@, fmodels));
    }
    Ok(g)
}

/// One line of a generated enumeration body.
pub open spec fn variant_line_of(name: Seq<char>) -> Seq<char> {
    "    "@ + name + ",\n"@
}

/// The lines of a generated enumeration body, in variant order.
pub open spec fn variant_lines_of(names: Seq<Seq<char>>) -> Seq<char>
    decreases names.len(),
{
    if names.len() == 0 {
        Seq::empty()
    } else {
        variant_lines_of(names.drop_last()) + variant_line_of(names.last())
    }
}

/// The definition text of a generated enumeration of bare tags.
pub open spec fn enum_def_text(tn: Seq<char>, names: Seq<Seq<char>>) -> Seq<char> {
    derive_header() + "pub enum "@ + tn + " {\n"@ + variant_lines_of(names) + "}\n"@
}

/// What one variant of an enum schema denotes: its name, which is required.
pub open spec fn variant_name_of(j: JsonModel) -> Result<Seq<char>, Seq<char>> {
    match j.get("variant_name"@) {
        Some(JsonModel::Str(n)) => Ok(n),
        _ => Err("Missing variant_name"@),
    }
}

/// What an enum schema's variant list denotes.
pub open spec fn variant_names_of(items: Seq<JsonModel>) -> Result<Seq<Seq<char>>, Seq<char>>
    decreases items.len(),
{
    if items.len() == 0 {
        Ok(Seq::empty())
    } else {
        match variant_name_of(items[0]) {
            Err(e) => Err(e),
            Ok(n) => match variant_names_of(items.drop_first()) {
                Err(e) => Err(e),
                Ok(rest) => Ok(seq![n] + rest),
            },
        }
    }
}

proof fn lemma_variant_names_complete(items: Seq<JsonModel>, ns: Seq<Seq<char>>)
    requires
        items.len() == ns.len(),
        forall|k: int|
            0 <= k < items.len() ==> variant_name_of(#[trigger] items[k]) == Ok::<
                Seq<char>,
                Seq<char>,
            >(ns[k]),
    ensures
        variant_names_of(items) == Ok::<Seq<Seq<char>>, Seq<char>>(ns),
    decreases items.len(),
{
    if items.len() == 0 {
        assert(ns =~= Seq::<Seq<char>>::empty());
    } else {
        lemma_variant_names_complete(items.drop_first(), ns.drop_first());
        assert(seq![ns[0]] + ns.drop_first() =~= ns);
    }
}

proof fn lemma_variant_names_fail(items: Seq<JsonModel>, i: int)
    requires
        0 <= i < items.len(),
        forall|k: int| 0 <= k < i ==> variant_name_of(#[trigger] items[k]) is Ok,
        variant_name_of(items[i]) is Err,
    ensures
        variant_names_of(items) == Err::<Seq<Seq<char>>, Seq<char>>(
            variant_name_of(items[i])->Err_0,
        ),
    decreases i,
{
    if i > 0 {
        lemma_variant_names_fail(items.drop_first(), i - 1);
    }
}

/// What an enum schema generates: an enumeration of bare tags under the
/// requested name.
pub open spec fn generated_enum_of(name: Seq<char>, schema: JsonModel) -> Result<
    GeneratedTypeModel,
    Seq<char>,
> {
    match schema.get("value"@) {
        None => Err("Missing value in enum schema"@),
        Some(value) => {
            match variant_names_of(list_member_of(value, "variants"@)) {
                Err(e) => Err(e),
                Ok(ns) => Ok(
                    GeneratedTypeModel {
                        name,
                        definition: enum_def_text(name, ns),
                        is_struct: false,
                        fields: Seq::empty(),
                    },
                ),
            }
        },
    }
}

/// Renders an enumeration definition from its schema payload.
fn generate_enum_type(name: &str, schema: &JsonValue) -> (r: Result<GeneratedType, String>)
    ensures
        (match r {
            Ok(g) => generated_enum_of(name@, schema@) == Ok::<GeneratedTypeModel, Seq<char>>(g@),
            Err(e) => generated_enum_of(name@, schema@) == Err::<GeneratedTypeModel, Seq<char>>(
                e@,
            ),
        }),
{
    let value = match schema.get("value") {
        Some(v) => v,
        None => {
            return Err(String::from_str("Missing value in enum schema"));
        },
    };
    let tn: String = name.to_owned();
    let empty_items: Vec<JsonValue> = Vec::new();
    let items: &Vec<JsonValue> = match value.get("variants") {
        Some(fv) => match fv.as_array() {
            Some(a) => a,
            None => &empty_items,
        },
        None => &empty_items,
    };
    let ghost js = crate::json::arr_model(items@);
    proof {
        assert(js =~= list_member_of(value@, "variants"@));
    }
    let mut definition = String::from_str(
        "#[derive(Debug, Clone, serde::Serialize, serde::Deserialize)]\n",
    );
    definition.append("pub enum ");
    definition.append(tn.as_str());
    definition.append(" {\n");
    let ghost def_head = derive_header() + "pub enum "@ + tn@ + " {\n"@;
    let ghost mut names: Seq<Seq<char>> = Seq::empty();
    proof {
        assert(definition@ =~= def_head + variant_lines_of(names));
    }
    let mut i: usize = 0;
    while i < items.len()
        invariant
            i <= items@.len(),
            js == crate::json::arr_model(items@),
            js.len() == items@.len(),
            schema@.get("value"@) == Some(value@),
            js == list_member_of(value@, "variants"@),
            names.len() == i as int,
            forall|k: int|
                0 <= k < i ==> variant_name_of(js[k]) == Ok::<Seq<char>, Seq<char>>(
                    #[trigger] names[k],
                ),
            definition@ == def_head + variant_lines_of(names),
        decreases items@.len() - i,
    {
        let vname = match items[i].get("variant_name") {
            Some(t) => match t.as_str() {
                Some(s) => s,
                None => {
                    proof {
                        assert forall|k: int| 0 <= k < i implies variant_name_of(
                            #[trigger] js[k],
                        ) is Ok by {
                            assert(variant_name_of(js[k]) == Ok::<Seq<char>, Seq<char>>(names[k]));
                        }
                        lemma_variant_names_fail(js, i as int);
                    }
                    return Err(String::from_str("Missing variant_name"));
                },
            },
            None => {
                proof {
                    assert forall|k: int| 0 <= k < i implies variant_name_of(
                        #[trigger] js[k],
                    ) is Ok by {
                        assert(variant_name_of(js[k]) == Ok::<Seq<char>, Seq<char>>(names[k]));
                    }
                    lemma_variant_names_fail(js, i as int);
                }
                return Err(String::from_str("Missing variant_name"));
            },
        };
        definition.append("    ");
        definition.append(vname.as_str());
        definition.append(",\n");
        proof {
            let names1 = names.push(vname@);
            assert(names1.drop_last() =~= names);
            assert(names1.last() == vname@);
            assert(definition@ =~= def_head + variant_lines_of(names1));
            names = names1;
        }
        i = i + 1;
    }
    definition.append("}\n");
    proof {
        lemma_variant_names_complete(js, names);
    }
    let g = GeneratedType { name: tn, definition, is_struct: false, fields: Vec::new() };
    proof {
        assert(g@.fields =~= Seq::<TypeFieldModel>::empty());
        assert(g@.definition =~= enum_def_text(tn@, names));
    }
    Ok(g)
}

/// A fallback definition at the model level.
pub open spec fn basic_gen_of(name: Seq<char>) -> GeneratedTypeModel {
    GeneratedTypeModel {
        name,
        definition: basic_type_def_of(name),
        is_struct: true,
        fields: seq![
            TypeFieldModel { name: "value"@, field_type: "serde_json::Value"@, optional: false },
        ],
    }
}

/// What a schema JSON string generates for a requested name: a struct, an
/// enumeration, or the fallback wrapper; unreadable schema text is an error.
pub open spec fn type_from_schema_of(name: Seq<char>, schema_json: Seq<char>) -> Result<
    GeneratedTypeModel,
    Seq<char>,
> {
    match crate::json::json_of_text(schema_json) {
        None => Err("invalid schema JSON"@),
        Some(schema) => match schema.get("kind"@) {
            Some(JsonModel::Str(kind)) => {
                if kind == "Struct"@ {
                    generated_struct_of(name, schema)
                } else if kind == "Enum"@ {
                    generated_enum_of(name, schema)
                } else {
                    Ok(basic_gen_of(name))
                }
            },
            _ => Ok(basic_gen_of(name)),
        },
    }
}

/// Renders the definition a schema JSON string generates for a name.
fn generate_type_from_schema(name: &str, schema_json: &str) -> (r: Result<GeneratedType, String>)
    ensures
        (match r {
            Ok(g) => type_from_schema_of(name@, schema_json@) == Ok::<
                GeneratedTypeModel,
                Seq<char>,
            >(g@),
            Err(e) => type_from_schema_of(name@, schema_json@) == Err::<
                GeneratedTypeModel,
                Seq<char>,
            >(e@),
        }),
{
    let schema = match crate::json::parse_json(schema_json) {
        Some(s) => s,
        None => {
            return Err(String::from_str("invalid schema JSON"));
        },
    };
    let kind = match schema.get("kind") {
        Some(k) => match k.as_str() {
            Some(s) => Some(s.clone()),
            None => None,
        },
        None => None,
    };
    match kind {
        Some(k) => {
            if crate::text::str_eq(k.as_str(), "Struct") {
                generate_struct_type(name, &schema)
            } else if crate::text::str_eq(k.as_str(), "Enum") {
                generate_enum_type(name, &schema)
            } else {
                let g = generate_basic_type(name);
                proof {
                    assert(g@.fields =~= basic_gen_of(name@).fields);
                    assert(g@ == basic_gen_of(name@));
                }
                Ok(g)
            }
        },
        None => {
            let g = generate_basic_type(name);
            proof {
                assert(g@.fields =~= basic_gen_of(name@).fields);
                assert(g@ == basic_gen_of(name@));
            }
            Ok(g)
        },
    }
}

/// The models of a list of generated types.
pub open spec fn gt_models(s: Seq<GeneratedType>) -> Seq<GeneratedTypeModel> {
    Seq::new(s.len(), |i: int| s[i]@)
}

/// The models of a list of processed names.
pub open spec fn str_models(s: Seq<String>) -> Seq<Seq<char>> {
    Seq::new(s.len(), |i: int| s[i]@)
}

/// The models of a list of function entries.
pub open spec fn fn_models(s: Seq<FunctionMetadata>) -> Seq<FunctionMetadataModel> {
    Seq::new(s.len(), |i: int| s[i]@)
}

/// Whether a name was already processed.
pub open spec fn contains_name(seen: Seq<Seq<char>>, n: Seq<char>) -> bool {
    exists|i: int| 0 <= i < seen.len() && seen[i] == n
}

proof fn lemma_contains_push(seen: Seq<Seq<char>>, x: Seq<char>, y: Seq<char>)
    ensures
        contains_name(seen.push(x), y) <==> (contains_name(seen, y) || x == y),
{
    if contains_name(seen, y) {
        let i = choose|i: int| 0 <= i < seen.len() && seen[i] == y;
        assert(seen.push(x)[i] == y);
    }
    if x == y {
        assert(seen.push(x)[seen.len() as int] == y);
    }
    if contains_name(seen.push(x), y) {
        let i = choose|i: int| 0 <= i < seen.push(x).len() && seen.push(x)[i] == y;
        if i < seen.len() {
            assert(seen[i] == y);
        }
    }
}

/// Whether the processed-name list holds the name.
fn seen_has(seen: &Vec<String>, name: &str) -> (r: bool)
    ensures
        r == contains_name(str_models(seen@), name@),
{
    let mut i: usize = 0;
    while i < seen.len()
        invariant
            i <= seen@.len(),
            forall|k: int| 0 <= k < i ==> str_models(seen@)[k] != name@,
        decreases seen@.len() - i,
    {
        if crate::text::str_eq(seen[i].as_str(), name) {
            assert(str_models(seen@)[i as int] == name@);
            return true;
        }
        i = i + 1;
    }
    false
}

/// What one function's declared input contributes to the run: a definition
/// for its input type name, where one is declared with a schema and the name
/// was not processed before.
pub open spec fn gen_input(f: FunctionMetadataModel, seen: Seq<Seq<char>>) -> (
    Seq<GeneratedTypeModel>,
    Seq<Seq<char>>,
) {
    match (f.input_type_name, f.input_schema_json) {
        (Some(tn), Some(sj)) => {
            if !contains_name(seen, tn) {
                match type_from_schema_of(tn, sj) {
                    Ok(g) => (seq![g], seen.push(tn)),
                    Err(_) => (Seq::empty(), seen),
                }
            } else {
                (Seq::empty(), seen)
            }
        },
        _ => (Seq::empty(), seen),
    }
}

/// What one function's declared output contributes: a definition for its
/// output type name where that is non-empty and not processed before; with
/// no schema at hand, the fallback wrapper.
pub open spec fn gen_output(f: FunctionMetadataModel, seen: Seq<Seq<char>>) -> (
    Seq<GeneratedTypeModel>,
    Seq<Seq<char>>,
) {
    if f.output_type_name.len() > 0 && !contains_name(seen, f.output_type_name) {
        match f.output_schema_json {
            Some(sj) => match type_from_schema_of(f.output_type_name, sj) {
                Ok(g) => (seq![g], seen.push(f.output_type_name)),
                Err(_) => (Seq::empty(), seen),
            },
            None => (
                seq![basic_gen_of(f.output_type_name)],
                seen.push(f.output_type_name),
            ),
        }
    } else {
        (Seq::empty(), seen)
    }
}

/// What one function contributes to the run: its input's part, then its
/// output's part.
pub open spec fn gen_one(f: FunctionMetadataModel, seen: Seq<Seq<char>>) -> (
    Seq<GeneratedTypeModel>,
    Seq<Seq<char>>,
) {
    let (o1, s1) = gen_input(f, seen);
    let (o2, s2) = gen_output(f, s1);
    (o1 + o2, s2)
}

/// The run's state after the first `n` functions: the definitions emitted so
/// far and the names processed so far.
pub open spec fn gen_state(fns: Seq<FunctionMetadataModel>, n: int) -> (
    Seq<GeneratedTypeModel>,
    Seq<Seq<char>>,
)
    decreases n,
{
    if n <= 0 {
        (Seq::empty(), Seq::empty())
    } else {
        let (o, s) = gen_state(fns, n - 1);
        let (o1, s1) = gen_one(fns[n - 1], s);
        (o + o1, s1)
    }
}

/// Pairwise distinct names.
pub open spec fn distinct_names(s: Seq<Seq<char>>) -> bool {
    forall|i: int, j: int| 0 <= i < j < s.len() ==> s[i] != s[j]
}

proof fn lemma_distinct_push(seen: Seq<Seq<char>>, x: Seq<char>)
    requires
        distinct_names(seen),
        !contains_name(seen, x),
    ensures
        distinct_names(seen.push(x)),
{
    assert forall|i: int, j: int| 0 <= i < j < seen.push(x).len() implies seen.push(x)[i]
        != seen.push(x)[j] by {
        if j < seen.len() {
            assert(seen[i] != seen[j]);
        } else {
            if seen.push(x)[i] == x {
                assert(contains_name(seen, x));
            }
        }
    }
}

/// A successful generation carries the requested name.
proof fn lemma_type_from_schema_name(name: Seq<char>, sj: Seq<char>)
    ensures
        (type_from_schema_of(name, sj) matches Ok(g) ==> g.name == name),
{
}

proof fn lemma_gen_one_dedup(f: FunctionMetadataModel, seen: Seq<Seq<char>>)
    ensures
        gen_one(f, seen).1.len() == seen.len() + gen_one(f, seen).0.len(),
        distinct_names(seen) ==> distinct_names(gen_one(f, seen).1),
        forall|k: int| 0 <= k < seen.len() ==> gen_one(f, seen).1[k] == seen[k],
        forall|k: int|
            0 <= k < gen_one(f, seen).0.len() ==> (#[trigger] gen_one(f, seen).0[k]).name
                == gen_one(f, seen).1[seen.len() + k],
{
    let (o1, s1) = gen_input(f, seen);
    match (f.input_type_name, f.input_schema_json) {
        (Some(tn), Some(sj)) => {
            if !contains_name(seen, tn) && type_from_schema_of(tn, sj) is Ok {
                lemma_type_from_schema_name(tn, sj);
                if distinct_names(seen) {
                    lemma_distinct_push(seen, tn);
                }
            }
        },
        _ => {},
    }
    if f.output_type_name.len() > 0 && !contains_name(s1, f.output_type_name) {
        match f.output_schema_json {
            Some(sj) => {
                if type_from_schema_of(f.output_type_name, sj) is Ok {
                    lemma_type_from_schema_name(f.output_type_name, sj);
                    if distinct_names(s1) {
                        lemma_distinct_push(s1, f.output_type_name);
                    }
                }
            },
            None => {
                if distinct_names(s1) {
                    lemma_distinct_push(s1, f.output_type_name);
                }
            },
        }
    }
}

/// Deduplication law: across a whole run, each processed type name is
/// processed exactly once, the k-th emitted definition carries the k-th
/// processed name, and so no type name is defined twice in the output.
pub proof fn lemma_generated_types_deduplicated(fns: Seq<FunctionMetadataModel>, n: int)
    requires
        0 <= n,
    ensures
        gen_state(fns, n).0.len() == gen_state(fns, n).1.len(),
        distinct_names(gen_state(fns, n).1),
        forall|k: int|
            0 <= k < gen_state(fns, n).0.len() ==> (#[trigger] gen_state(fns, n).0[k]).name
                == gen_state(fns, n).1[k],
        forall|k1: int, k2: int|
            0 <= k1 < k2 < gen_state(fns, n).0.len() ==> (#[trigger] gen_state(fns, n).0[k1]).name
                != (#[trigger] gen_state(fns, n).0[k2]).name,
    decreases n,
{
    if n > 0 {
        lemma_generated_types_deduplicated(fns, n - 1);
        lemma_gen_one_dedup(fns[n - 1], gen_state(fns, n - 1).1);
    }
}

/// Runs the type mapper over a whole function list: every declared input and
/// output type name is mapped once, in list order.
pub fn generate_types_from_metadata(functions: &Vec<FunctionMetadata>) -> (r: Vec<GeneratedType>)
    ensures
        gt_models(r@) == gen_state(fn_models(functions@), functions@.len() as int).0,
{
    let ghost fms = fn_models(functions@);
    let mut generated_types: Vec<GeneratedType> = Vec::new();
    let mut processed: Vec<String> = Vec::new();
    let mut i: usize = 0;
    while i < functions.len()
        invariant
            i <= functions@.len(),
            fms == fn_models(functions@),
            fms.len() == functions@.len(),
            gt_models(generated_types@) == gen_state(fms, i as int).0,
            str_models(processed@) == gen_state(fms, i as int).1,
        decreases functions@.len() - i,
    {
        let f = &functions[i];
        let ghost s0 = str_models(processed@);
        let ghost o0 = gt_models(generated_types@);
        // input type, where declared with a schema
        match (&f.input_type_name, &f.input_schema_json) {
            (Some(tn), Some(sj)) => {
                if !seen_has(&processed, tn.as_str()) {
                    match generate_type_from_schema(tn.as_str(), sj.as_str()) {
                        Ok(g) => {
                            processed.push(tn.clone());
                            generated_types.push(g);
                            proof {
                                assert(str_models(processed@) =~= s0.push(tn@));
                                assert(gt_models(generated_types@) =~= o0 + gen_input(
                                    f@,
                                    s0,
                                ).0);
                            }
                        },
                        Err(_) => {},
                    }
                }
            },
            _ => {},
        }
        let ghost s1 = str_models(processed@);
        let ghost o1 = gt_models(generated_types@);
        proof {
            assert(s1 =~= gen_input(f@, s0).1);
            assert(o1 =~= o0 + gen_input(f@, s0).0);
        }
        // output type, always declared, possibly without a schema
        if !f.output_type_name.as_str().is_empty() && !seen_has(
            &processed,
            f.output_type_name.as_str(),
        ) {
            match &f.output_schema_json {
                Some(sj) => {
                    match generate_type_from_schema(f.output_type_name.as_str(), sj.as_str()) {
                        Ok(g) => {
                            processed.push(f.output_type_name.clone());
                            generated_types.push(g);
                            proof {
                                assert(str_models(processed@) =~= s1.push(f@.output_type_name));
                                assert(gt_models(generated_types@) =~= o1 + gen_output(
                                    f@,
                                    s1,
                                ).0);
                            }
                        },
                        Err(_) => {},
                    }
                },
                None => {
                    let g = generate_basic_type(f.output_type_name.as_str());
                    proof {
                        assert(g@.fields =~= basic_gen_of(f@.output_type_name).fields);
                        assert(g@ == basic_gen_of(f@.output_type_name));
                    }
                    processed.push(f.output_type_name.clone());
                    generated_types.push(g);
                    proof {
                        assert(str_models(processed@) =~= s1.push(f@.output_type_name));
                        assert(gt_models(generated_types@) =~= o1 + gen_output(f@, s1).0);
                    }
                },
            }
        }
        proof {
            assert(str_models(processed@) =~= gen_output(f@, s1).1);
            assert(gt_models(generated_types@) =~= o1 + gen_output(f@, s1).0);
            assert(fms[i as int] == f@);
            assert(gt_models(generated_types@) =~= gen_state(fms, i + 1).0);
            assert(str_models(processed@) =~= gen_state(fms, i + 1).1);
        }
        i = i + 1;
    }
    generated_types
}

} // verus!
