//! Shared types of the RPC library: the recursive schema model for wire
//! types, function metadata, the explicit registry that collects both, and
//! the server address.

use vstd::prelude::*;
use vstd::string::StringExecFns;

verus! {

/// Schema for any wire type (struct, enum, primitive, ...).
#[derive(Debug, PartialEq)]
pub enum TypeSchema {
    /// Primitive types: i32, String, bool, etc.
    Primitive(String),
    /// Structs with named fields
    Struct(StructSchema),
    /// Enums with variants
    Enum(EnumSchema),
    /// Generic container like Vec<T>, Option<T>
    Container { container_type: String, inner_type: Box<TypeSchema> },
    /// Tuple types
    Tuple(Vec<Box<TypeSchema>>),
    /// Self-referencing or unresolvable types
    Opaque(String),
}

/// Schema for a struct.
#[derive(Debug, PartialEq)]
pub struct StructSchema {
    pub ty_name: String,
    pub fields: Vec<FieldSchema>,
}

/// Single field in a struct.
#[derive(Debug, PartialEq)]
pub struct FieldSchema {
    pub field_name: String,
    pub field_type: Box<TypeSchema>,
    pub optional: bool,
}

/// Schema for an enum.
#[derive(Debug, PartialEq)]
pub struct EnumSchema {
    pub ty_name: String,
    pub variants: Vec<VariantSchema>,
}

/// Enum variant.
#[derive(Debug, PartialEq)]
pub struct VariantSchema {
    pub variant_name: String,
    pub inner_schema: Option<Box<TypeSchema>>,
}

/// The mathematical model of a schema tree.
pub enum SchemaModel {
    Primitive(Seq<char>),
    Struct(StructModel),
    Enum(EnumModel),
    Container { container_type: Seq<char>, inner_type: Box<SchemaModel> },
    Tuple(Seq<SchemaModel>),
    Opaque(Seq<char>),
}

pub struct StructModel {
    pub ty_name: Seq<char>,
    pub fields: Seq<FieldModel>,
}

pub struct FieldModel {
    pub field_name: Seq<char>,
    pub field_type: Box<SchemaModel>,
    pub optional: bool,
}

pub struct EnumModel {
    pub ty_name: Seq<char>,
    pub variants: Seq<VariantModel>,
}

pub struct VariantModel {
    pub variant_name: Seq<char>,
    pub inner_schema: Option<Box<SchemaModel>>,
}

/// The model of a schema tree, node by node.
pub open spec fn schema_model(s: TypeSchema) -> SchemaModel
    decreases s,
{
    match s {
        TypeSchema::Primitive(n) => SchemaModel::Primitive(n@),
        TypeSchema::Struct(ss) => SchemaModel::Struct(
            StructModel {
                ty_name: ss.ty_name@,
                fields: Seq::new(
                    ss.fields.len() as nat,
                    |i: int|
                        if 0 <= i < ss.fields.len() {
                            field_model(ss.fields[i])
                        } else {
                            arbitrary()
                        },
                ),
            },
        ),
        TypeSchema::Enum(es) => SchemaModel::Enum(
            EnumModel {
                ty_name: es.ty_name@,
                variants: Seq::new(
                    es.variants.len() as nat,
                    |i: int|
                        if 0 <= i < es.variants.len() {
                            variant_model(es.variants[i])
                        } else {
                            arbitrary()
                        },
                ),
            },
        ),
        TypeSchema::Container { container_type, inner_type } => SchemaModel::Container {
            container_type: container_type@,
            inner_type: Box::new(schema_model(*inner_type)),
        },
        TypeSchema::Tuple(items) => SchemaModel::Tuple(
            Seq::new(
                items.len() as nat,
                |i: int|
                    if 0 <= i < items.len() {
                        schema_model(*items[i])
                    } else {
                        arbitrary()
                    },
            ),
        ),
        TypeSchema::Opaque(n) => SchemaModel::Opaque(n@),
    }
}

/// The model of a single struct field.
pub open spec fn field_model(f: FieldSchema) -> FieldModel
    decreases f,
{
    FieldModel {
        field_name: f.field_name@,
        field_type: Box::new(schema_model(*f.field_type)),
        optional: f.optional,
    }
}

/// The model of a single enum variant.
pub open spec fn variant_model(v: VariantSchema) -> VariantModel
    decreases v,
{
    VariantModel {
        variant_name: v.variant_name@,
        inner_schema: match v.inner_schema {
            Some(inner) => Some(Box::new(schema_model(*inner))),
            None => None,
        },
    }
}

impl View for TypeSchema {
    type V = SchemaModel;

    open spec fn view(&self) -> SchemaModel {
        schema_model(*self)
    }
}

impl View for FieldSchema {
    type V = FieldModel;

    open spec fn view(&self) -> FieldModel {
        field_model(*self)
    }
}

impl View for VariantSchema {
    type V = VariantModel;

    open spec fn view(&self) -> VariantModel {
        variant_model(*self)
    }
}

/// Server address configuration.
#[derive(Debug, Clone)]
pub struct ServerAddr {
    pub ip: String,
    pub port: u16,
}

impl ServerAddr {
    /// The base URL of the server this address names.
    pub fn base_url(&self) -> (r: String)
        ensures
            r@ == "http://"@ + self.ip@ + ":"@ + crate::text::dec_rep(self.port as nat),
    {
        let mut out: String = String::from_str("http://");
        out.append(self.ip.as_str());
        out.append(":");
        let port_text = crate::text::u64_to_text(self.port as u64);
        out.append(port_text.as_str());
        out
    }
}

/// Endpoint discovery information.
#[derive(Debug, Clone)]
pub struct EndpointDiscovery {
    pub uri: String,
    pub methods: Vec<String>,
}

/// Parameter information for one RPC function.
#[derive(Debug, PartialEq)]
pub struct ParamInfo {
    pub name: String,
    pub full_type: String,
    pub extractor: String,
    pub inner_type_schema: TypeSchema,
}

/// The model of one parameter.
pub struct ParamModel {
    pub name: Seq<char>,
    pub full_type: Seq<char>,
    pub extractor: Seq<char>,
    pub inner_type_schema: SchemaModel,
}

impl View for ParamInfo {
    type V = ParamModel;

    open spec fn view(&self) -> ParamModel {
        ParamModel {
            name: self.name@,
            full_type: self.full_type@,
            extractor: self.extractor@,
            inner_type_schema: schema_model(self.inner_type_schema),
        }
    }
}

/// Metadata for one RPC function.
#[derive(Debug, PartialEq)]
pub struct FunctionMetadata {
    pub function_name: String,
    pub params: Vec<ParamInfo>,
    pub return_type: TypeSchema,
    /// Optional declared primary input type name (e.g., payload), if any
    pub input_type_name: Option<String>,
    /// Declared output type name; required by the registration step
    pub output_type_name: String,
    pub is_async: bool,
    pub is_mutation: bool,
}

/// The model of one function's metadata.
pub struct FunctionMetadataModel {
    pub function_name: Seq<char>,
    pub params: Seq<ParamModel>,
    pub return_type: SchemaModel,
    pub input_type_name: Option<Seq<char>>,
    pub output_type_name: Seq<char>,
    pub is_async: bool,
    pub is_mutation: bool,
}

impl View for FunctionMetadata {
    type V = FunctionMetadataModel;

    open spec fn view(&self) -> FunctionMetadataModel {
        FunctionMetadataModel {
            function_name: self.function_name@,
            params: Seq::new(self.params.len() as nat, |i: int| self.params[i]@),
            return_type: schema_model(self.return_type),
            input_type_name: match self.input_type_name {
                Some(s) => Some(s@),
                None => None,
            },
            output_type_name: self.output_type_name@,
            is_async: self.is_async,
            is_mutation: self.is_mutation,
        }
    }
}

/// Builds function metadata from its parts, so call sites cannot miss a
/// field.
pub fn make_function_metadata(
    function_name: String,
    params: Vec<ParamInfo>,
    return_type: TypeSchema,
    input_type_name: Option<String>,
    output_type_name: String,
    is_async: bool,
    is_mutation: bool,
) -> (r: FunctionMetadata)
    ensures
        r.function_name == function_name,
        r.params == params,
        r.return_type == return_type,
        r.input_type_name == input_type_name,
        r.output_type_name == output_type_name,
        r.is_async == is_async,
        r.is_mutation == is_mutation,
{
    FunctionMetadata {
        function_name,
        params,
        return_type,
        input_type_name,
        output_type_name,
        is_async,
        is_mutation,
    }
}

/// Error raised by RPC operations.
#[derive(Debug)]
pub enum LazError {
    RequestError(String),
    JsonError(String),
    FunctionNotFound(String),
    InvalidParameter(String),
    ServerError(String),
    TypeGenerationError(String),
}

/// The model of an RPC error.
pub enum LazErrorModel {
    RequestError(Seq<char>),
    JsonError(Seq<char>),
    FunctionNotFound(Seq<char>),
    InvalidParameter(Seq<char>),
    ServerError(Seq<char>),
    TypeGenerationError(Seq<char>),
}

impl View for LazError {
    type V = LazErrorModel;

    open spec fn view(&self) -> LazErrorModel {
        match self {
            LazError::RequestError(s) => LazErrorModel::RequestError(s@),
            LazError::JsonError(s) => LazErrorModel::JsonError(s@),
            LazError::FunctionNotFound(s) => LazErrorModel::FunctionNotFound(s@),
            LazError::InvalidParameter(s) => LazErrorModel::InvalidParameter(s@),
            LazError::ServerError(s) => LazErrorModel::ServerError(s@),
            LazError::TypeGenerationError(s) => LazErrorModel::TypeGenerationError(s@),
        }
    }
}

/// The display text of an RPC error.
pub open spec fn laz_error_message_of(e: LazErrorModel) -> Seq<char> {
    match e {
        LazErrorModel::RequestError(s) => "HTTP request failed: "@ + s,
        LazErrorModel::JsonError(s) => "JSON parsing failed: "@ + s,
        LazErrorModel::FunctionNotFound(s) => "Function not found: "@ + s,
        LazErrorModel::InvalidParameter(s) => "Invalid parameter: "@ + s,
        LazErrorModel::ServerError(s) => "Server error: "@ + s,
        LazErrorModel::TypeGenerationError(s) => "Type generation failed: "@ + s,
    }
}

impl LazError {
    /// The error rendered as one line of text.
    pub fn message(&self) -> (r: String)
        ensures
            r@ == laz_error_message_of(self@),
    {
        match self {
            LazError::RequestError(s) => {
                let mut out = String::from_str("HTTP request failed: ");
                out.append(s.as_str());
                out
            },
            LazError::JsonError(s) => {
                let mut out = String::from_str("JSON parsing failed: ");
                out.append(s.as_str());
                out
            },
            LazError::FunctionNotFound(s) => {
                let mut out = String::from_str("Function not found: ");
                out.append(s.as_str());
                out
            },
            LazError::InvalidParameter(s) => {
                let mut out = String::from_str("Invalid parameter: ");
                out.append(s.as_str());
                out
            },
            LazError::ServerError(s) => {
                let mut out = String::from_str("Server error: ");
                out.append(s.as_str());
                out
            },
            LazError::TypeGenerationError(s) => {
                let mut out = String::from_str("Type generation failed: ");
                out.append(s.as_str());
                out
            },
        }
    }
}

/// A deep copy of a schema tree.
pub fn clone_schema(s: &TypeSchema) -> (r: TypeSchema)
    ensures
        r@ == s@,
    decreases *s,
{
    match s {
        TypeSchema::Primitive(n) => TypeSchema::Primitive(n.clone()),
        TypeSchema::Opaque(n) => TypeSchema::Opaque(n.clone()),
        TypeSchema::Container { container_type, inner_type } => {
            proof {
                assert(decreases_to!(*s => s->Container_inner_type));
            }
            let inner = clone_schema(&*inner_type);
            TypeSchema::Container {
                container_type: container_type.clone(),
                inner_type: Box::new(inner),
            }
        },
        TypeSchema::Struct(ss) => {
            let mut fields: Vec<FieldSchema> = Vec::new();
            let mut i: usize = 0;
            while i < ss.fields.len()
                invariant
                    i <= ss.fields@.len(),
                    s is Struct,
                    *ss == s->Struct_0,
                    fields@.len() == i as int,
                    forall|k: int| 0 <= k < i ==> #[trigger] fields@[k]@ == ss.fields@[k]@,
                decreases ss.fields@.len() - i,
            {
                proof {
                    assert(decreases_to!(*s => s->Struct_0));
                    assert(decreases_to!(s->Struct_0 => s->Struct_0.fields));
                    assert(decreases_to!(ss.fields => ss.fields[i as int]));
                    assert(decreases_to!(ss.fields[i as int] => ss.fields[i as int].field_type));
                }
                let ft = clone_schema(&*ss.fields[i].field_type);
                fields.push(
                    FieldSchema {
                        field_name: ss.fields[i].field_name.clone(),
                        field_type: Box::new(ft),
                        optional: ss.fields[i].optional,
                    },
                );
                i = i + 1;
            }
            let r = TypeSchema::Struct(StructSchema { ty_name: ss.ty_name.clone(), fields });
            proof {
                assert forall|k: int| 0 <= k < fields@.len() implies (r@)->Struct_0.fields[k]
                    == (s@)->Struct_0.fields[k] by {
                    assert(fields@[k]@ == ss.fields@[k]@);
                }
                assert((r@)->Struct_0.fields =~= (s@)->Struct_0.fields);
            }
            r
        },
        TypeSchema::Enum(es) => {
            let mut variants: Vec<VariantSchema> = Vec::new();
            let mut i: usize = 0;
            while i < es.variants.len()
                invariant
                    i <= es.variants@.len(),
                    s is Enum,
                    *es == s->Enum_0,
                    variants@.len() == i as int,
                    forall|k: int| 0 <= k < i ==> #[trigger] variants@[k]@ == es.variants@[k]@,
                decreases es.variants@.len() - i,
            {
                proof {
                    assert(decreases_to!(*s => s->Enum_0));
                    assert(decreases_to!(s->Enum_0 => s->Enum_0.variants));
                    assert(decreases_to!(es.variants => es.variants[i as int]));
                    assert(decreases_to!(es.variants[i as int] => es.variants[i as int].inner_schema));
                }
                let inner = match &es.variants[i].inner_schema {
                    Some(b) => {
                        proof {
                            assert(decreases_to!(es.variants[i as int].inner_schema => es.variants[
                                i as int
                            ].inner_schema->0));
                        }
                        Some(Box::new(clone_schema(&**b)))
                    },
                    None => None,
                };
                variants.push(
                    VariantSchema {
                        variant_name: es.variants[i].variant_name.clone(),
                        inner_schema: inner,
                    },
                );
                i = i + 1;
            }
            let r = TypeSchema::Enum(EnumSchema { ty_name: es.ty_name.clone(), variants });
            proof {
                assert forall|k: int| 0 <= k < variants@.len() implies (r@)->Enum_0.variants[k]
                    == (s@)->Enum_0.variants[k] by {
                    assert(variants@[k]@ == es.variants@[k]@);
                }
                assert((r@)->Enum_0.variants =~= (s@)->Enum_0.variants);
            }
            r
        },
        TypeSchema::Tuple(items) => {
            let mut out: Vec<Box<TypeSchema>> = Vec::new();
            let mut i: usize = 0;
            while i < items.len()
                invariant
                    i <= items@.len(),
                    s is Tuple,
                    *items == s->Tuple_0,
                    out@.len() == i as int,
                    forall|k: int|
                        0 <= k < i ==> schema_model(*#[trigger] out@[k]) == schema_model(
                            *items@[k],
                        ),
                decreases items@.len() - i,
            {
                proof {
                    assert(decreases_to!(*s => s->Tuple_0));
                    assert(decreases_to!(*items => items[i as int]));
                }
                let c = clone_schema(&*items[i]);
                out.push(Box::new(c));
                i = i + 1;
            }
            let r = TypeSchema::Tuple(out);
            proof {
                assert((r@)->Tuple_0 =~= (s@)->Tuple_0);
            }
            r
        },
    }
}

/// A deep copy of one parameter.
pub fn clone_param_info(p: &ParamInfo) -> (r: ParamInfo)
    ensures
        r@ == p@,
{
    ParamInfo {
        name: p.name.clone(),
        full_type: p.full_type.clone(),
        extractor: p.extractor.clone(),
        inner_type_schema: clone_schema(&p.inner_type_schema),
    }
}

/// A deep copy of one function's metadata.
pub fn clone_function_metadata(m: &FunctionMetadata) -> (r: FunctionMetadata)
    ensures
        r@ == m@,
        r.function_name@ == m.function_name@,
{
    let mut params: Vec<ParamInfo> = Vec::new();
    let mut i: usize = 0;
    while i < m.params.len()
        invariant
            i <= m.params@.len(),
            params@.len() == i as int,
            forall|k: int| 0 <= k < i ==> #[trigger] params@[k]@ == m.params@[k]@,
        decreases m.params@.len() - i,
    {
        let p = clone_param_info(&m.params[i]);
        params.push(p);
        i = i + 1;
    }
    let r = FunctionMetadata {
        function_name: m.function_name.clone(),
        params,
        return_type: clone_schema(&m.return_type),
        input_type_name: match &m.input_type_name {
            Some(s) => Some(s.clone()),
            None => None,
        },
        output_type_name: m.output_type_name.clone(),
        is_async: m.is_async,
        is_mutation: m.is_mutation,
    };
    proof {
        assert(r@.params =~= m@.params);
    }
    r
}

/// A registered type schema under an explicit name.
#[derive(Debug)]
pub struct TypeSchemaEntry {
    pub ty_name: String,
    pub schema: TypeSchema,
}

/// A registered function's metadata under its name.
#[derive(Debug)]
pub struct FunctionMetadataEntry {
    pub function_name: String,
    pub metadata: FunctionMetadata,
}

/// The explicit registry that collects declared schemas and functions during
/// an initialization phase: named schema entries, bare schemas, named
/// metadata entries, bare metadata, and the keyed function registry.
#[derive(Debug)]
pub struct LazRegistry {
    pub schema_entries: Vec<TypeSchemaEntry>,
    pub schemas: Vec<TypeSchema>,
    pub metadata_entries: Vec<FunctionMetadataEntry>,
    pub metadata: Vec<FunctionMetadata>,
    pub registered: Vec<FunctionMetadata>,
}

impl LazRegistry {
    /// An empty registry.
    pub fn new() -> (r: LazRegistry)
        ensures
            r.schema_entries@.len() == 0,
            r.schemas@.len() == 0,
            r.metadata_entries@.len() == 0,
            r.metadata@.len() == 0,
            r.registered@.len() == 0,
    {
        LazRegistry {
            schema_entries: Vec::new(),
            schemas: Vec::new(),
            metadata_entries: Vec::new(),
            metadata: Vec::new(),
            registered: Vec::new(),
        }
    }
}

/// The first registered function carrying the given name.
pub open spec fn md_lookup(fns: Seq<FunctionMetadata>, name: Seq<char>) -> Option<FunctionMetadata>
    decreases fns.len(),
{
    if fns.len() == 0 {
        None
    } else if fns[0].function_name@ == name {
        Some(fns[0])
    } else {
        md_lookup(fns.drop_first(), name)
    }
}

/// No two registered entries carry the same function name.
pub open spec fn md_names_unique(fns: Seq<FunctionMetadata>) -> bool {
    forall|i: int, j: int| 0 <= i < j < fns.len() ==> fns[i].function_name@ != fns[j].function_name@
}

proof fn lemma_md_lookup_skip(fns: Seq<FunctionMetadata>, name: Seq<char>, i: int)
    requires
        0 <= i <= fns.len(),
        forall|j: int| 0 <= j < i ==> fns[j].function_name@ != name,
    ensures
        md_lookup(fns, name) == md_lookup(fns.skip(i), name),
    decreases i,
{
    if i > 0 {
        lemma_md_lookup_skip(fns, name, i - 1);
        assert(fns.skip(i - 1).drop_first() =~= fns.skip(i));
        assert(fns.skip(i - 1)[0] == fns[i - 1]);
    } else {
        assert(fns.skip(0) =~= fns);
    }
}

proof fn lemma_md_lookup_push(fns: Seq<FunctionMetadata>, f: FunctionMetadata, name: Seq<char>)
    ensures
        md_lookup(fns, name) is Some ==> md_lookup(fns.push(f), name) == md_lookup(fns, name),
        md_lookup(fns, name) is None ==> md_lookup(fns.push(f), name) == (if f.function_name@
            == name {
            Some(f)
        } else {
            None::<FunctionMetadata>
        }),
    decreases fns.len(),
{
    if fns.len() == 0 {
        assert(fns.push(f).drop_first() =~= fns);
        assert(fns.push(f)[0] == f);
        assert(md_lookup(fns, name) is None);
    } else {
        lemma_md_lookup_push(fns.drop_first(), f, name);
        assert(fns.push(f).drop_first() =~= fns.drop_first().push(f));
        assert(fns.push(f)[0] == fns[0]);
    }
}

proof fn lemma_md_lookup_agree(a: Seq<FunctionMetadata>, b: Seq<FunctionMetadata>, name: Seq<char>)
    requires
        a.len() == b.len(),
        forall|j: int|
            0 <= j < a.len() ==> ((#[trigger] a[j].function_name@ == name) <==> (
            #[trigger] b[j].function_name@ == name)),
        forall|j: int| 0 <= j < a.len() && a[j].function_name@ == name ==> a[j] == b[j],
    ensures
        md_lookup(a, name) == md_lookup(b, name),
    decreases a.len(),
{
    if a.len() > 0 {
        if a[0].function_name@ != name {
            lemma_md_lookup_agree(a.drop_first(), b.drop_first(), name);
        }
    }
}

/// Registers one function's metadata, replacing any earlier entry under the
/// same name. The keyed registry stays one-entry-per-name: distinct names
/// stay distinct, and it grows by at most the one entry.
pub fn register_function_metadata(reg: &mut LazRegistry, metadata: FunctionMetadata)
    ensures
        final(reg).schema_entries == old(reg).schema_entries,
        final(reg).schemas == old(reg).schemas,
        final(reg).metadata_entries == old(reg).metadata_entries,
        final(reg).metadata == old(reg).metadata,
        old(reg).registered@.len() <= final(reg).registered@.len() <= old(reg).registered@.len()
            + 1,
        md_names_unique(old(reg).registered@) ==> md_names_unique(final(reg).registered@),
        forall|n: Seq<char>|
            #[trigger] md_lookup(final(reg).registered@, n) == (if n == metadata.function_name@ {
                Some(metadata)
            } else {
                md_lookup(old(reg).registered@, n)
            }),
{
    let ghost m_spec = metadata;
    let ghost fns0 = reg.registered@;
    let mut i: usize = 0;
    while i < reg.registered.len()
        invariant
            i <= reg.registered@.len(),
            reg.registered@ == fns0,
            fns0 == old(reg).registered@,
            reg.schema_entries == old(reg).schema_entries,
            reg.schemas == old(reg).schemas,
            reg.metadata_entries == old(reg).metadata_entries,
            reg.metadata == old(reg).metadata,
            forall|j: int| 0 <= j < i ==> fns0[j].function_name@ != m_spec.function_name@,
            metadata == m_spec,
        decreases reg.registered@.len() - i,
    {
        if crate::text::str_eq(
            reg.registered[i].function_name.as_str(),
            metadata.function_name.as_str(),
        ) {
            let ghost idx = i as int;
            reg.registered.set(i, metadata);
            proof {
                let fns1 = reg.registered@;
                assert forall|n: Seq<char>|
                    #[trigger] md_lookup(fns1, n) == (if n == m_spec.function_name@ {
                        Some(m_spec)
                    } else {
                        md_lookup(fns0, n)
                    }) by {
                    if n == m_spec.function_name@ {
                        lemma_md_lookup_skip(fns1, n, idx);
                        assert(fns1.skip(idx)[0] == fns1[idx]);
                    } else {
                        lemma_md_lookup_agree(fns1, fns0, n);
                    }
                }
                if md_names_unique(fns0) {
                    assert forall|a: int, b: int| 0 <= a < b < fns1.len() implies fns1[a].function_name@
                        != fns1[b].function_name@ by {
                        assert(fns1[a].function_name@ == fns0[a].function_name@);
                        assert(fns1[b].function_name@ == fns0[b].function_name@);
                    }
                }
            }
            return ;
        }
        i = i + 1;
    }
    reg.registered.push(metadata);
    proof {
        let fns1 = reg.registered@;
        assert forall|n: Seq<char>|
            #[trigger] md_lookup(fns1, n) == (if n == m_spec.function_name@ {
                Some(m_spec)
            } else {
                md_lookup(fns0, n)
            }) by {
            lemma_md_lookup_push(fns0, m_spec, n);
            if n == m_spec.function_name@ {
                lemma_md_lookup_skip(fns0, n, fns0.len() as int);
                assert(fns0.skip(fns0.len() as int) =~= Seq::<FunctionMetadata>::empty());
            }
        }
        if md_names_unique(fns0) {
            assert forall|a: int, b: int| 0 <= a < b < fns1.len() implies fns1[a].function_name@
                != fns1[b].function_name@ by {
                if b < fns0.len() {
                    assert(fns0[a].function_name@ != fns0[b].function_name@);
                } else {
                    assert(fns1[a].function_name@ == fns0[a].function_name@);
                    assert(fns1[b].function_name@ == m_spec.function_name@);
                }
            }
        }
    }
}

/// Copies of all functions in the keyed registry, in registration order;
/// one per entry, so one per distinct name whenever the registry is
/// duplicate-free.
pub fn get_all_registered_functions(reg: &LazRegistry) -> (r: Vec<FunctionMetadata>)
    ensures
        r@.len() == reg.registered@.len(),
        forall|k: int| 0 <= k < r@.len() ==> #[trigger] r@[k]@ == reg.registered@[k]@,
        forall|k: int|
            0 <= k < r@.len() ==> #[trigger] r@[k].function_name@
                == reg.registered@[k].function_name@,
        md_names_unique(reg.registered@) ==> (forall|i: int, j: int|
            0 <= i < j < r@.len() ==> #[trigger] r@[i].function_name@
                != #[trigger] r@[j].function_name@),
{
    let mut out: Vec<FunctionMetadata> = Vec::new();
    let mut i: usize = 0;
    while i < reg.registered.len()
        invariant
            i <= reg.registered@.len(),
            out@.len() == i as int,
            forall|k: int| 0 <= k < i ==> #[trigger] out@[k]@ == reg.registered@[k]@,
            forall|k: int|
                0 <= k < i ==> #[trigger] out@[k].function_name@
                    == reg.registered@[k].function_name@,
        decreases reg.registered@.len() - i,
    {
        let c = clone_function_metadata(&reg.registered[i]);
        out.push(c);
        i = i + 1;
    }
    out
}

/// All collected type schemas: the named entries' schemas first, then the
/// bare ones, in registration order.
pub fn get_all_type_schemas<'a>(reg: &'a LazRegistry) -> (r: Vec<&'a TypeSchema>)
    ensures
        r@.len() == reg.schema_entries@.len() + reg.schemas@.len(),
        forall|k: int|
            0 <= k < reg.schema_entries@.len() ==> *(#[trigger] r@[k]) == reg.schema_entries@[k].schema,
        forall|k: int|
            reg.schema_entries@.len() <= k < r@.len() ==> *(#[trigger] r@[k]) == reg.schemas@[k
                - reg.schema_entries@.len()],
{
    let mut out: Vec<&TypeSchema> = Vec::new();
    let mut i: usize = 0;
    while i < reg.schema_entries.len()
        invariant
            i <= reg.schema_entries@.len(),
            out@.len() == i as int,
            forall|k: int| 0 <= k < i ==> *(#[trigger] out@[k]) == reg.schema_entries@[k].schema,
        decreases reg.schema_entries@.len() - i,
    {
        out.push(&reg.schema_entries[i].schema);
        i = i + 1;
    }
    let mut j: usize = 0;
    while j < reg.schemas.len()
        invariant
            j <= reg.schemas@.len(),
            out@.len() == reg.schema_entries@.len() + j as int,
            forall|k: int|
                0 <= k < reg.schema_entries@.len() ==> *(#[trigger] out@[k])
                    == reg.schema_entries@[k].schema,
            forall|k: int|
                reg.schema_entries@.len() <= k < out@.len() ==> *(#[trigger] out@[k])
                    == reg.schemas@[k - reg.schema_entries@.len()],
        decreases reg.schemas@.len() - j,
    {
        out.push(&reg.schemas[j]);
        j = j + 1;
    }
    out
}

/// All collected function metadata: the named entries' metadata first, then
/// the bare ones, in registration order.
pub fn get_all_function_metadata<'a>(reg: &'a LazRegistry) -> (r: Vec<&'a FunctionMetadata>)
    ensures
        r@.len() == reg.metadata_entries@.len() + reg.metadata@.len(),
        forall|k: int|
            0 <= k < reg.metadata_entries@.len() ==> *(#[trigger] r@[k])
                == reg.metadata_entries@[k].metadata,
        forall|k: int|
            reg.metadata_entries@.len() <= k < r@.len() ==> *(#[trigger] r@[k]) == reg.metadata@[k
                - reg.metadata_entries@.len()],
{
    let mut out: Vec<&FunctionMetadata> = Vec::new();
    let mut i: usize = 0;
    while i < reg.metadata_entries.len()
        invariant
            i <= reg.metadata_entries@.len(),
            out@.len() == i as int,
            forall|k: int|
                0 <= k < i ==> *(#[trigger] out@[k]) == reg.metadata_entries@[k].metadata,
        decreases reg.metadata_entries@.len() - i,
    {
        out.push(&reg.metadata_entries[i].metadata);
        i = i + 1;
    }
    let mut j: usize = 0;
    while j < reg.metadata.len()
        invariant
            j <= reg.metadata@.len(),
            out@.len() == reg.metadata_entries@.len() + j as int,
            forall|k: int|
                0 <= k < reg.metadata_entries@.len() ==> *(#[trigger] out@[k])
                    == reg.metadata_entries@[k].metadata,
            forall|k: int|
                reg.metadata_entries@.len() <= k < out@.len() ==> *(#[trigger] out@[k])
                    == reg.metadata@[k - reg.metadata_entries@.len()],
        decreases reg.metadata@.len() - j,
    {
        out.push(&reg.metadata[j]);
        j = j + 1;
    }
    out
}

/// The name a schema carries in itself, where it carries one.
pub open spec fn schema_own_name(s: SchemaModel) -> Option<Seq<char>> {
    match s {
        SchemaModel::Primitive(n) => Some(n),
        SchemaModel::Struct(sm) => Some(sm.ty_name),
        SchemaModel::Enum(em) => Some(em.ty_name),
        SchemaModel::Opaque(n) => Some(n),
        _ => None,
    }
}

/// Whether a named registry entry answers to the given name: by its entry
/// name, or by the name its schema carries.
pub open spec fn entry_answers(e: TypeSchemaEntry, name: Seq<char>) -> bool {
    e.ty_name@ == name || schema_own_name(e.schema@) == Some(name)
}

/// The first named entry that answers to the name.
pub open spec fn find_in_entries(entries: Seq<TypeSchemaEntry>, name: Seq<char>) -> Option<
    TypeSchema,
>
    decreases entries.len(),
{
    if entries.len() == 0 {
        None
    } else if entry_answers(entries[0], name) {
        Some(entries[0].schema)
    } else {
        find_in_entries(entries.drop_first(), name)
    }
}

/// The first bare schema that carries the name itself.
pub open spec fn find_in_schemas(schemas: Seq<TypeSchema>, name: Seq<char>) -> Option<TypeSchema>
    decreases schemas.len(),
{
    if schemas.len() == 0 {
        None
    } else if schema_own_name(schemas[0]@) == Some(name) {
        Some(schemas[0])
    } else {
        find_in_schemas(schemas.drop_first(), name)
    }
}

/// Where a name resolves in the registry: named entries first, then bare
/// schemas.
pub open spec fn find_schema_spec(reg: LazRegistry, name: Seq<char>) -> Option<TypeSchema> {
    match find_in_entries(reg.schema_entries@, name) {
        Some(s) => Some(s),
        None => find_in_schemas(reg.schemas@, name),
    }
}

proof fn lemma_find_in_entries_skip(entries: Seq<TypeSchemaEntry>, name: Seq<char>, i: int)
    requires
        0 <= i <= entries.len(),
        forall|j: int| 0 <= j < i ==> !entry_answers(#[trigger] entries[j], name),
    ensures
        find_in_entries(entries, name) == find_in_entries(entries.skip(i), name),
    decreases i,
{
    if i > 0 {
        lemma_find_in_entries_skip(entries, name, i - 1);
        assert(entries.skip(i - 1).drop_first() =~= entries.skip(i));
        assert(entries.skip(i - 1)[0] == entries[i - 1]);
    } else {
        assert(entries.skip(0) =~= entries);
    }
}

proof fn lemma_find_in_schemas_skip(schemas: Seq<TypeSchema>, name: Seq<char>, i: int)
    requires
        0 <= i <= schemas.len(),
        forall|j: int| 0 <= j < i ==> schema_own_name(#[trigger] schemas[j]@) != Some(name),
    ensures
        find_in_schemas(schemas, name) == find_in_schemas(schemas.skip(i), name),
    decreases i,
{
    if i > 0 {
        lemma_find_in_schemas_skip(schemas, name, i - 1);
        assert(schemas.skip(i - 1).drop_first() =~= schemas.skip(i));
        assert(schemas.skip(i - 1)[0] == schemas[i - 1]);
    } else {
        assert(schemas.skip(0) =~= schemas);
    }
}

/// Whether a schema carries the given name itself.
fn schema_name_is(s: &TypeSchema, name: &str) -> (r: bool)
    ensures
        r == (schema_own_name(s@) == Some(name@)),
{
    match s {
        TypeSchema::Primitive(n) => crate::text::str_eq(n.as_str(), name),
        TypeSchema::Struct(ss) => crate::text::str_eq(ss.ty_name.as_str(), name),
        TypeSchema::Enum(es) => crate::text::str_eq(es.ty_name.as_str(), name),
        TypeSchema::Opaque(n) => crate::text::str_eq(n.as_str(), name),
        _ => false,
    }
}

/// Finds a type schema by name: the named entries first, matched by entry
/// name or by the schema's own name, then the bare schemas.
pub fn find_type_schema<'a>(reg: &'a LazRegistry, name: &str) -> (r: Option<&'a TypeSchema>)
    ensures
        (match r {
            Some(s) => find_schema_spec(*reg, name@) == Some(*s),
            None => find_schema_spec(*reg, name@) is None,
        }),
{
    let mut i: usize = 0;
    while i < reg.schema_entries.len()
        invariant
            i <= reg.schema_entries@.len(),
            forall|j: int| 0 <= j < i ==> !entry_answers(#[trigger] reg.schema_entries@[j], name@),
        decreases reg.schema_entries@.len() - i,
    {
        let entry = &reg.schema_entries[i];
        if crate::text::str_eq(entry.ty_name.as_str(), name) || schema_name_is(
            &entry.schema,
            name,
        ) {
            proof {
                lemma_find_in_entries_skip(reg.schema_entries@, name@, i as int);
                assert(reg.schema_entries@.skip(i as int)[0] == reg.schema_entries@[i as int]);
            }
            return Some(&entry.schema);
        }
        i = i + 1;
    }
    proof {
        lemma_find_in_entries_skip(
            reg.schema_entries@,
            name@,
            reg.schema_entries@.len() as int,
        );
    }
    let mut j: usize = 0;
    while j < reg.schemas.len()
        invariant
            j <= reg.schemas@.len(),
            find_in_entries(reg.schema_entries@, name@) is None,
            forall|k: int|
                0 <= k < j ==> schema_own_name(#[trigger] reg.schemas@[k]@) != Some(name@),
        decreases reg.schemas@.len() - j,
    {
        if schema_name_is(&reg.schemas[j], name) {
            proof {
                lemma_find_in_schemas_skip(reg.schemas@, name@, j as int);
                assert(reg.schemas@.skip(j as int)[0] == reg.schemas@[j as int]);
            }
            return Some(&reg.schemas[j]);
        }
        j = j + 1;
    }
    proof {
        lemma_find_in_schemas_skip(reg.schemas@, name@, reg.schemas@.len() as int);
    }
    None
}

} // verus!
