//! The dispatcher core: the function table and endpoint list discovered from
//! a server, the heuristic endpoint resolver, and the pure planning and
//! response-interpretation steps of a call. The HTTP transport around it
//! hands in fetched text and carries out the plans this module produces.

use vstd::prelude::*;
use vstd::string::StrSliceExecFns;
use vstd::string::StringExecFns;
use crate::json::{arr_model, JsonModel, JsonValue};
use crate::text::{
    contains_seq, dec_rep, is_substring_at, kebab, kebab_of, lower_of, lowercase, str_contains,
    str_eq, str_starts_with,
};

verus! {

/// An error of the RPC client.
#[derive(Debug)]
pub enum RpcClientError {
    RequestError(String),
    JsonError(String),
    FunctionNotFound(String),
    InvalidParameter(String),
    ServerError(String),
}

/// The model of a client error.
pub enum ErrorModel {
    RequestError(Seq<char>),
    JsonError(Seq<char>),
    FunctionNotFound(Seq<char>),
    InvalidParameter(Seq<char>),
    ServerError(Seq<char>),
}

impl View for RpcClientError {
    type V = ErrorModel;

    open spec fn view(&self) -> ErrorModel {
        match self {
            RpcClientError::RequestError(s) => ErrorModel::RequestError(s@),
            RpcClientError::JsonError(s) => ErrorModel::JsonError(s@),
            RpcClientError::FunctionNotFound(s) => ErrorModel::FunctionNotFound(s@),
            RpcClientError::InvalidParameter(s) => ErrorModel::InvalidParameter(s@),
            RpcClientError::ServerError(s) => ErrorModel::ServerError(s@),
        }
    }
}

/// The display text of an error.
pub open spec fn error_message_of(e: ErrorModel) -> Seq<char> {
    match e {
        ErrorModel::RequestError(s) => "HTTP request failed: "@ + s,
        ErrorModel::JsonError(s) => "JSON parsing failed: "@ + s,
        ErrorModel::FunctionNotFound(s) => "Function not found: "@ + s,
        ErrorModel::InvalidParameter(s) => "Invalid parameter: "@ + s,
        ErrorModel::ServerError(s) => "Server error: "@ + s,
    }
}

impl RpcClientError {
    /// The error rendered as one line of text.
    pub fn message(&self) -> (r: String)
        ensures
            r@ == error_message_of(self@),
    {
        match self {
            RpcClientError::RequestError(s) => {
                let mut out = String::from_str("HTTP request failed: ");
                out.append(s.as_str());
                out
            },
            RpcClientError::JsonError(s) => {
                let mut out = String::from_str("JSON parsing failed: ");
                out.append(s.as_str());
                out
            },
            RpcClientError::FunctionNotFound(s) => {
                let mut out = String::from_str("Function not found: ");
                out.append(s.as_str());
                out
            },
            RpcClientError::InvalidParameter(s) => {
                let mut out = String::from_str("Invalid parameter: ");
                out.append(s.as_str());
                out
            },
            RpcClientError::ServerError(s) => {
                let mut out = String::from_str("Server error: ");
                out.append(s.as_str());
                out
            },
        }
    }
}

/// The base URL of a server: `http://{ip}:{port}`.
pub open spec fn base_url_of(ip: Seq<char>, port: nat) -> Seq<char> {
    "http://"@ + ip + ":"@ + dec_rep(port)
}

/// Server address configuration.
#[derive(Debug, Clone)]
pub struct ServerAddr {
    pub ip: String,
    pub port: usize,
}

impl ServerAddr {
    /// The base URL of the server this address names.
    pub fn base_url(&self) -> (r: String)
        ensures
            r@ == base_url_of(self.ip@, self.port as nat),
    {
        let mut out: String = String::from_str("http://");
        out.append(self.ip.as_str());
        out.append(":");
        let port_text = crate::text::u64_to_text(self.port as u64);
        out.append(port_text.as_str());
        out
    }
}

/// One RPC function as described by the server's metadata document.
#[derive(Debug)]
pub struct RpcFunction {
    pub name: String,
    pub is_mutation: bool,
    pub is_async: bool,
    pub input_type_name: Option<String>,
    pub output_type_name: String,
    pub params: Vec<JsonValue>,
    pub input_schema_json: Option<String>,
    pub output_schema_json: Option<String>,
}

/// The model of an RPC function entry.
pub struct RpcFunctionModel {
    pub name: Seq<char>,
    pub is_mutation: bool,
    pub is_async: bool,
    pub input_type_name: Option<Seq<char>>,
    pub output_type_name: Seq<char>,
    pub params: Seq<JsonModel>,
    pub input_schema_json: Option<Seq<char>>,
    pub output_schema_json: Option<Seq<char>>,
}

impl View for RpcFunction {
    type V = RpcFunctionModel;

    open spec fn view(&self) -> RpcFunctionModel {
        RpcFunctionModel {
            name: self.name@,
            is_mutation: self.is_mutation,
            is_async: self.is_async,
            input_type_name: match self.input_type_name {
                Some(s) => Some(s@),
                None => None,
            },
            output_type_name: self.output_type_name@,
            params: arr_model(self.params@),
            input_schema_json: match self.input_schema_json {
                Some(s) => Some(s@),
                None => None,
            },
            output_schema_json: match self.output_schema_json {
                Some(s) => Some(s@),
                None => None,
            },
        }
    }
}

/// Endpoint discovery information.
#[derive(Debug, Clone)]
pub struct EndpointDiscovery {
    pub uri: String,
    pub methods: Vec<String>,
}

/// The model of an endpoint: its URI and its HTTP verbs.
pub struct EndpointModel {
    pub uri: Seq<char>,
    pub methods: Seq<Seq<char>>,
}

impl View for EndpointDiscovery {
    type V = EndpointModel;

    open spec fn view(&self) -> EndpointModel {
        EndpointModel {
            uri: self.uri@,
            methods: Seq::new(self.methods.len() as nat, |i: int| self.methods[i]@),
        }
    }
}

/// The URIs of a list of endpoints, in order.
pub open spec fn ep_uris(eps: Seq<EndpointDiscovery>) -> Seq<Seq<char>> {
    Seq::new(eps.len(), |i: int| eps[i].uri@)
}

/// The first function in the list that carries the given name.
pub open spec fn fn_lookup(fns: Seq<RpcFunction>, name: Seq<char>) -> Option<RpcFunction>
    decreases fns.len(),
{
    if fns.len() == 0 {
        None
    } else if fns[0].name@ == name {
        Some(fns[0])
    } else {
        fn_lookup(fns.drop_first(), name)
    }
}

/// No two entries of the table carry the same name.
pub open spec fn fn_names_unique(fns: Seq<RpcFunction>) -> bool {
    forall|i: int, j: int| 0 <= i < j < fns.len() ==> fns[i].name@ != fns[j].name@
}

proof fn lemma_fn_lookup_skip(fns: Seq<RpcFunction>, name: Seq<char>, i: int)
    requires
        0 <= i <= fns.len(),
        forall|j: int| 0 <= j < i ==> fns[j].name@ != name,
    ensures
        fn_lookup(fns, name) == fn_lookup(fns.skip(i), name),
    decreases i,
{
    if i > 0 {
        lemma_fn_lookup_skip(fns, name, i - 1);
        assert(fns.skip(i - 1).drop_first() =~= fns.skip(i));
        assert(fns.skip(i - 1)[0] == fns[i - 1]);
    } else {
        assert(fns.skip(0) =~= fns);
    }
}

/// Looking a name up in a list with one more entry at the end.
proof fn lemma_fn_lookup_push(fns: Seq<RpcFunction>, f: RpcFunction, name: Seq<char>)
    ensures
        fn_lookup(fns, name) is Some ==> fn_lookup(fns.push(f), name) == fn_lookup(fns, name),
        fn_lookup(fns, name) is None ==> fn_lookup(fns.push(f), name) == (if f.name@ == name {
            Some(f)
        } else {
            None::<RpcFunction>
        }),
    decreases fns.len(),
{
    if fns.len() == 0 {
        assert(fns.push(f).drop_first() =~= fns);
        assert(fns.push(f)[0] == f);
        assert(fn_lookup(fns, name) is None);
        if f.name@ == name {
            assert(fn_lookup(fns.push(f), name) == Some(f));
        } else {
            assert(fn_lookup(fns.push(f), name) is None);
        }
    } else {
        lemma_fn_lookup_push(fns.drop_first(), f, name);
        assert(fns.push(f).drop_first() =~= fns.drop_first().push(f));
        assert(fns.push(f)[0] == fns[0]);
        if fns[0].name@ == name {
            assert(fn_lookup(fns, name) == Some(fns[0]));
            assert(fn_lookup(fns.push(f), name) == Some(fns[0]));
        } else {
            assert(fn_lookup(fns, name) == fn_lookup(fns.drop_first(), name));
            assert(fn_lookup(fns.push(f), name) == fn_lookup(fns.drop_first().push(f), name));
        }
    }
}

/// Two lists that agree on which entries carry the name, and on those
/// entries, agree on the lookup.
proof fn lemma_fn_lookup_agree(a: Seq<RpcFunction>, b: Seq<RpcFunction>, name: Seq<char>)
    requires
        a.len() == b.len(),
        forall|j: int| 0 <= j < a.len() ==> ((#[trigger] a[j].name@ == name) <==> (#[trigger] b[j].name@ == name)),
        forall|j: int| 0 <= j < a.len() && a[j].name@ == name ==> a[j] == b[j],
    ensures
        fn_lookup(a, name) == fn_lookup(b, name),
    decreases a.len(),
{
    if a.len() > 0 {
        if a[0].name@ != name {
            lemma_fn_lookup_agree(a.drop_first(), b.drop_first(), name);
        }
    }
}

/// Whether one of the URIs matches a function name by any of the three
/// substring tests: the raw name, its kebab form, or its lower-case form.
pub open spec fn uri_matches(uri: Seq<char>, name: Seq<char>) -> bool {
    contains_seq(uri, name) || contains_seq(uri, kebab_of(name)) || contains_seq(
        uri,
        lower_of(name),
    )
}

/// The first URI that matches the name by substring, scanning in list order.
pub open spec fn first_uri_match(uris: Seq<Seq<char>>, name: Seq<char>) -> Option<Seq<char>>
    decreases uris.len(),
{
    if uris.len() == 0 {
        None
    } else if uri_matches(uris[0], name) {
        Some(uris[0])
    } else {
        first_uri_match(uris.drop_first(), name)
    }
}

proof fn lemma_first_uri_match_skip(uris: Seq<Seq<char>>, name: Seq<char>, i: int)
    requires
        0 <= i <= uris.len(),
        forall|j: int| 0 <= j < i ==> !uri_matches(#[trigger] uris[j], name),
    ensures
        first_uri_match(uris, name) == first_uri_match(uris.skip(i), name),
    decreases i,
{
    if i > 0 {
        lemma_first_uri_match_skip(uris, name, i - 1);
        assert(uris.skip(i - 1).drop_first() =~= uris.skip(i));
        assert(uris.skip(i - 1)[0] == uris[i - 1]);
    } else {
        assert(uris.skip(0) =~= uris);
    }
}

/// Whether some URI in the list equals `u`.
pub open spec fn uris_contain(uris: Seq<Seq<char>>, u: Seq<char>) -> bool {
    exists|i: int| 0 <= i < uris.len() && uris[i] == u
}

/// Where a function resolves among the endpoints: the first URI that passes
/// a substring test; failing that, the first of the three fixed candidate
/// paths that equals some URI; failing that, nothing.
pub open spec fn resolve_spec(name: Seq<char>, uris: Seq<Seq<char>>) -> Option<Seq<char>> {
    match first_uri_match(uris, name) {
        Some(u) => Some(u),
        None => {
            let c1 = "/api/"@ + kebab_of(name);
            let c2 = "/api/auth/"@ + kebab_of(name);
            let c3 = "/auth/"@ + kebab_of(name);
            if uris_contain(uris, c1) {
                Some(c1)
            } else if uris_contain(uris, c2) {
                Some(c2)
            } else if uris_contain(uris, c3) {
                Some(c3)
            } else {
                None
            }
        },
    }
}

/// Whether the endpoint list holds a URI equal to `u`.
fn uris_has(endpoints: &Vec<EndpointDiscovery>, u: &str) -> (r: bool)
    ensures
        r == uris_contain(ep_uris(endpoints@), u@),
{
    let mut i: usize = 0;
    while i < endpoints.len()
        invariant
            i <= endpoints@.len(),
            forall|k: int| 0 <= k < i ==> ep_uris(endpoints@)[k] != u@,
        decreases endpoints@.len() - i,
    {
        if str_eq(endpoints[i].uri.as_str(), u) {
            assert(ep_uris(endpoints@)[i as int] == u@);
            return true;
        }
        i = i + 1;
    }
    false
}

/// The dispatcher core: the server address, the function and endpoint
/// tables discovered from its metadata document, and the API prefix that
/// call URLs carry. Function names are unique in the table; a later
/// registration under the same name replaces the earlier one.
#[derive(Debug)]
pub struct LocoClient {
    pub server_addr: ServerAddr,
    pub api_prefix: String,
    pub functions: Vec<RpcFunction>,
    pub endpoints_discovery: Vec<EndpointDiscovery>,
}

/// The path a planned call targets: the endpoint itself where it already
/// carries the API prefix, the prefixed endpoint otherwise.
pub open spec fn prefixed_path_of(prefix: Seq<char>, endpoint: Seq<char>) -> Seq<char> {
    if is_substring_at(endpoint, prefix, 0) {
        endpoint
    } else {
        prefix + endpoint
    }
}

/// Exactly-once law for the default API prefix: as long as the endpoint
/// holds `/api` nowhere but at its start, the planned path holds it at its
/// start and nowhere else.
pub proof fn lemma_api_prefix_exactly_once(endpoint: Seq<char>)
    requires
        forall|k: int| is_substring_at(endpoint, "/api"@, k) ==> k == 0,
    ensures
        is_substring_at(prefixed_path_of("/api"@, endpoint), "/api"@, 0),
        forall|k: int| is_substring_at(prefixed_path_of("/api"@, endpoint), "/api"@, k) ==> k == 0,
{
    reveal_strlit("/api");
    let p = "/api"@;
    assert(p.len() == 4);
    if is_substring_at(endpoint, p, 0) {
        assert(prefixed_path_of(p, endpoint) == endpoint);
    } else {
        let path = p + endpoint;
        assert(path.subrange(0, 4) =~= p);
        assert(is_substring_at(path, p, 0));
        assert forall|k: int| is_substring_at(path, p, k) implies k == 0 by {
            if k != 0 {
                if k >= 4 {
                    assert(path.subrange(k, k + 4) =~= endpoint.subrange(k - 4, k));
                    assert(is_substring_at(endpoint, p, k - 4));
                } else {
                    assert(path.subrange(k, k + 4)[0] == path[k]);
                    assert(path[k] == p[k]);
                    assert(p[0] == '/');
                }
            }
        }
    }
}

impl LocoClient {
    /// A client for the given server, with no metadata yet and the default
    /// API prefix.
    pub fn new(server_addr: ServerAddr) -> (r: LocoClient)
        ensures
            r.server_addr == server_addr,
            r.api_prefix@ == "/api"@,
            r.functions@ =~= Seq::<RpcFunction>::empty(),
            r.endpoints_discovery@ =~= Seq::<EndpointDiscovery>::empty(),
    {
        LocoClient {
            server_addr,
            api_prefix: String::from_str("/api"),
            functions: Vec::new(),
            endpoints_discovery: Vec::new(),
        }
    }

    /// Registers one function, replacing any earlier entry under its name.
    /// The table stays one-entry-per-name: distinct names stay distinct, and
    /// the table grows by at most the one entry.
    pub fn insert_function(&mut self, f: RpcFunction)
        ensures
            final(self).server_addr == old(self).server_addr,
            final(self).api_prefix == old(self).api_prefix,
            final(self).endpoints_discovery == old(self).endpoints_discovery,
            old(self).functions@.len() <= final(self).functions@.len() <= old(
                self,
            ).functions@.len() + 1,
            fn_names_unique(old(self).functions@) ==> fn_names_unique(final(self).functions@),
            forall|n: Seq<char>|
                #[trigger] fn_lookup(final(self).functions@, n) == (if n == f.name@ {
                    Some(f)
                } else {
                    fn_lookup(old(self).functions@, n)
                }),
    {
        let ghost f_spec = f;
        let ghost fns0 = self.functions@;
        let mut i: usize = 0;
        while i < self.functions.len()
            invariant
                i <= self.functions@.len(),
                self.functions@ == fns0,
                fns0 == old(self).functions@,
                self.server_addr == old(self).server_addr,
                self.api_prefix == old(self).api_prefix,
                self.endpoints_discovery == old(self).endpoints_discovery,
                forall|j: int| 0 <= j < i ==> fns0[j].name@ != f_spec.name@,
                f == f_spec,
            decreases self.functions@.len() - i,
        {
            if str_eq(self.functions[i].name.as_str(), f.name.as_str()) {
                let ghost idx = i as int;
                self.functions.set(i, f);
                proof {
                    let fns1 = self.functions@;
                    assert forall|n: Seq<char>|
                        #[trigger] fn_lookup(fns1, n) == (if n == f_spec.name@ {
                            Some(f_spec)
                        } else {
                            fn_lookup(fns0, n)
                        }) by {
                        if n == f_spec.name@ {
                            lemma_fn_lookup_skip(fns1, n, idx);
                            assert(fns1.skip(idx)[0] == fns1[idx]);
                        } else {
                            lemma_fn_lookup_agree(fns1, fns0, n);
                        }
                    }
                    if fn_names_unique(fns0) {
                        assert forall|a: int, b: int| 0 <= a < b < fns1.len() implies fns1[a].name@
                            != fns1[b].name@ by {
                            assert(fns1[a].name@ == fns0[a].name@);
                            assert(fns1[b].name@ == fns0[b].name@);
                        }
                    }
                }
                return ;
            }
            i = i + 1;
        }
        self.functions.push(f);
        proof {
            let fns1 = self.functions@;
            assert forall|n: Seq<char>|
                #[trigger] fn_lookup(fns1, n) == (if n == f_spec.name@ {
                    Some(f_spec)
                } else {
                    fn_lookup(fns0, n)
                }) by {
                lemma_fn_lookup_push(fns0, f_spec, n);
                if n == f_spec.name@ {
                    lemma_fn_lookup_skip(fns0, n, fns0.len() as int);
                    assert(fns0.skip(fns0.len() as int) =~= Seq::<RpcFunction>::empty());
                }
            }
            if fn_names_unique(fns0) {
                assert forall|a: int, b: int| 0 <= a < b < fns1.len() implies fns1[a].name@
                    != fns1[b].name@ by {
                    if b < fns0.len() {
                        assert(fns0[a].name@ != fns0[b].name@);
                    } else {
                        assert(fns1[a].name@ == fns0[a].name@);
                        assert(fns1[b].name@ == f_spec.name@);
                    }
                }
            }
        }
    }

    /// The names of the functions the client knows, in table order; one per
    /// entry, so duplicate-free whenever the table is.
    pub fn get_function_names(&self) -> (r: Vec<String>)
        ensures
            r@.len() == self.functions@.len(),
            forall|i: int| 0 <= i < r@.len() ==> #[trigger] r@[i]@ == self.functions@[i].name@,
            fn_names_unique(self.functions@) ==> (forall|i: int, j: int|
                0 <= i < j < r@.len() ==> #[trigger] r@[i]@ != #[trigger] r@[j]@),
    {
        let mut out: Vec<String> = Vec::new();
        let mut i: usize = 0;
        while i < self.functions.len()
            invariant
                i <= self.functions@.len(),
                out@.len() == i as int,
                forall|k: int| 0 <= k < i ==> #[trigger] out@[k]@ == self.functions@[k].name@,
            decreases self.functions@.len() - i,
        {
            out.push(self.functions[i].name.clone());
            i = i + 1;
        }
        out
    }

    /// The endpoints discovered from the server, in document order.
    pub fn get_endpoints_discovery(&self) -> (r: &Vec<EndpointDiscovery>)
        ensures
            r == self.endpoints_discovery,
    {
        &self.endpoints_discovery
    }

    /// The metadata of one function, by name.
    pub fn get_function_metadata<'a>(&'a self, function_name: &str) -> (r: Option<&'a RpcFunction>)
        ensures
            (match r {
                Some(f) => fn_lookup(self.functions@, function_name@) == Some(*f),
                None => fn_lookup(self.functions@, function_name@) is None,
            }),
    {
        let mut i: usize = 0;
        while i < self.functions.len()
            invariant
                i <= self.functions@.len(),
                forall|j: int| 0 <= j < i ==> self.functions@[j].name@ != function_name@,
            decreases self.functions@.len() - i,
        {
            if str_eq(self.functions[i].name.as_str(), function_name) {
                proof {
                    lemma_fn_lookup_skip(self.functions@, function_name@, i as int);
                    assert(self.functions@.skip(i as int)[0] == self.functions@[i as int]);
                }
                return Some(&self.functions[i]);
            }
            i = i + 1;
        }
        proof {
            lemma_fn_lookup_skip(self.functions@, function_name@, self.functions@.len() as int);
        }
        None
    }

    /// Finds the HTTP endpoint for a function against the discovered list,
    /// by the fixed precedence: substring tests in list order first, then
    /// the three candidate paths in their fixed order.
    pub fn find_endpoint_for_function(&self, function_name: &str) -> (r: Option<String>)
        ensures
            (match r {
                Some(u) => resolve_spec(function_name@, ep_uris(self.endpoints_discovery@))
                    == Some(u@),
                None => resolve_spec(function_name@, ep_uris(self.endpoints_discovery@)) is None,
            }),
    {
        let ghost uris = ep_uris(self.endpoints_discovery@);
        let kb = kebab(function_name);
        let low = lowercase(function_name);
        let mut i: usize = 0;
        while i < self.endpoints_discovery.len()
            invariant
                i <= self.endpoints_discovery@.len(),
                uris == ep_uris(self.endpoints_discovery@),
                kb@ == kebab_of(function_name@),
                low@ == lower_of(function_name@),
                forall|k: int| 0 <= k < i ==> !uri_matches(#[trigger] uris[k], function_name@),
            decreases self.endpoints_discovery@.len() - i,
        {
            let uri = &self.endpoints_discovery[i].uri;
            if str_contains(uri.as_str(), function_name) || str_contains(uri.as_str(), kb.as_str())
                || str_contains(uri.as_str(), low.as_str()) {
                proof {
                    lemma_first_uri_match_skip(uris, function_name@, i as int);
                    assert(uris.skip(i as int)[0] == uris[i as int]);
                }
                return Some(uri.clone());
            }
            i = i + 1;
        }
        proof {
            lemma_first_uri_match_skip(uris, function_name@, uris.len() as int);
        }
        let mut c1 = String::from_str("/api/");
        c1.append(kb.as_str());
        if uris_has(&self.endpoints_discovery, c1.as_str()) {
            return Some(c1);
        }
        let mut c2 = String::from_str("/api/auth/");
        c2.append(kb.as_str());
        if uris_has(&self.endpoints_discovery, c2.as_str()) {
            return Some(c2);
        }
        let mut c3 = String::from_str("/auth/");
        c3.append(kb.as_str());
        if uris_has(&self.endpoints_discovery, c3.as_str()) {
            return Some(c3);
        }
        None
    }
}

/// The text a parameter value contributes to a query string: strings as they
/// are, numbers and booleans as their text, anything else as its JSON text.
pub open spec fn stringify_of(m: JsonModel) -> Seq<char> {
    match m {
        JsonModel::Str(s) => s,
        JsonModel::Num(n) => n,
        JsonModel::Bool(b) => if b {
            "true"@
        } else {
            "false"@
        },
        _ => crate::json::json_text_of(m),
    }
}

/// Renders one parameter value for a query string.
pub fn stringify_value(value: &JsonValue) -> (r: String)
    ensures
        r@ == stringify_of(value@),
{
    match value {
        JsonValue::Str(s) => s.clone(),
        JsonValue::Num(n) => n.clone(),
        JsonValue::Bool(b) => {
            if *b {
                String::from_str("true")
            } else {
                String::from_str("false")
            }
        },
        other => crate::json::json_to_text(other),
    }
}

/// The query pairs a read request carries: the top-level members of an
/// object parameter, each value stringified; nothing for any other shape.
pub open spec fn query_pairs_of(params: Option<JsonModel>) -> Seq<(Seq<char>, Seq<char>)> {
    match params {
        Some(JsonModel::Obj(fields)) => Seq::new(
            fields.len(),
            |i: int| (fields[i].0, stringify_of(fields[i].1)),
        ),
        _ => Seq::empty(),
    }
}

/// The models of built query pairs.
pub open spec fn pair_models(q: Seq<(String, String)>) -> Seq<(Seq<char>, Seq<char>)> {
    Seq::new(q.len(), |i: int| (q[i].0@, q[i].1@))
}

/// The query pairs of the first `n` members of an object parameter.
pub open spec fn query_prefix_of(fields: Seq<(String, JsonValue)>, n: int) -> Seq<(
    Seq<char>,
    Seq<char>,
)> {
    Seq::new(n as nat, |k: int| (fields[k].0@, stringify_of(fields[k].1@)))
}

/// One planned HTTP call: the full URL, the verb family, and either query
/// pairs (reads) or a rendered JSON body (writes).
#[derive(Debug)]
pub struct CallPlan {
    pub url: String,
    pub is_mutation: bool,
    pub query: Vec<(String, String)>,
    pub body: Option<String>,
}

/// The model of a parameter value handed to a call.
pub open spec fn params_model(params: Option<&JsonValue>) -> Option<JsonModel> {
    match params {
        Some(p) => Some(p@),
        None => None,
    }
}

impl LocoClient {
    /// Plans a call to one endpoint: a write becomes a POST with the
    /// parameters as JSON body; a read becomes a GET whose query string
    /// carries the members of an object parameter. The API prefix is
    /// prepended only where the path does not already carry it, so a URL
    /// never holds the prefix twice; `lemma_api_prefix_exactly_once` states
    /// the law, and the last clause carries it for the default prefix.
    pub fn call_endpoint_plan(&self, endpoint: &str, is_mutation: bool, params: Option<
        &JsonValue,
    >) -> (r: CallPlan)
        ensures
            r.url@ == base_url_of(self.server_addr.ip@, self.server_addr.port as nat)
                + prefixed_path_of(self.api_prefix@, endpoint@),
            r.is_mutation == is_mutation,
            is_mutation ==> r.query@.len() == 0 && (match params {
                Some(p) => r.body matches Some(b) && b@ == crate::json::json_text_of(p@),
                None => r.body is None,
            }),
            !is_mutation ==> r.body is None && pair_models(r.query@) == query_pairs_of(
                params_model(params),
            ),
            (self.api_prefix@ == "/api"@ && (forall|k: int|
                is_substring_at(endpoint@, "/api"@, k) ==> k == 0)) ==> (is_substring_at(
                prefixed_path_of(self.api_prefix@, endpoint@),
                "/api"@,
                0,
            ) && (forall|k: int|
                is_substring_at(prefixed_path_of(self.api_prefix@, endpoint@), "/api"@, k) ==> k
                    == 0)),
    {
        let mut url = self.server_addr.base_url();
        if str_starts_with(endpoint, self.api_prefix.as_str()) {
            url.append(endpoint);
        } else {
            url.append(self.api_prefix.as_str());
            url.append(endpoint);
        }
        proof {
            assert(url@ =~= base_url_of(self.server_addr.ip@, self.server_addr.port as nat)
                + prefixed_path_of(self.api_prefix@, endpoint@));
            if self.api_prefix@ == "/api"@ && (forall|k: int|
                is_substring_at(endpoint@, "/api"@, k) ==> k == 0) {
                lemma_api_prefix_exactly_once(endpoint@);
            }
        }
        if is_mutation {
            let body = match params {
                Some(p) => Some(crate::json::json_to_text(p)),
                None => None,
            };
            CallPlan { url, is_mutation, query: Vec::new(), body }
        } else {
            let mut query: Vec<(String, String)> = Vec::new();
            match params {
                Some(p) => {
                    match p.as_object() {
                        Some(fields) => {
                            let mut i: usize = 0;
                            while i < fields.len()
                                invariant
                                    i <= fields@.len(),
                                    p@ == JsonModel::Obj(crate::json::obj_model(fields@)),
                                    query@.len() == i as int,
                                    pair_models(query@) == query_prefix_of(fields@, i as int),
                                decreases fields@.len() - i,
                            {
                                let ghost query0 = query@;
                                let sv = stringify_value(&fields[i].1);
                                query.push((fields[i].0.clone(), sv));
                                proof {
                                    assert forall|k: int|
                                        0 <= k < query@.len() implies pair_models(query@)[k]
                                        == query_prefix_of(fields@, i + 1)[k] by {
                                        if k < i {
                                            assert(query@[k] == query0[k]);
                                            assert(pair_models(query0)[k] == query_prefix_of(
                                                fields@,
                                                i as int,
                                            )[k]);
                                        }
                                    }
                                    assert(pair_models(query@) =~= query_prefix_of(
                                        fields@,
                                        i + 1,
                                    ));
                                }
                                i = i + 1;
                            }
                            proof {
                                assert(pair_models(query@) =~= query_pairs_of(
                                    Some(p@),
                                ));
                            }
                        },
                        None => {},
                    }
                },
                None => {},
            }
            proof {
                assert(pair_models(query@) =~= query_pairs_of(params_model(params)));
            }
            CallPlan { url, is_mutation, query, body: None }
        }
    }

    /// Plans a call to a named function: the function must be known and an
    /// endpoint must resolve for it; the plan then targets that endpoint
    /// with the function's verb family. A name that is unknown, or that no
    /// endpoint resolves for, always fails as function-not-found.
    pub fn call_function_plan(&self, function_name: &str) -> (r: Result<
        (String, bool),
        RpcClientError,
    >)
        ensures
            (fn_lookup(self.functions@, function_name@) is None || resolve_spec(
                function_name@,
                ep_uris(self.endpoints_discovery@),
            ) is None) ==> (r matches Err(e) && e@ is FunctionNotFound),
            (match fn_lookup(self.functions@, function_name@) {
                None => r matches Err(e) && e@ == ErrorModel::FunctionNotFound(function_name@),
                Some(f) => (match resolve_spec(
                    function_name@,
                    ep_uris(self.endpoints_discovery@),
                ) {
                    Some(u) => r matches Ok(t) && t.0@ == u && t.1 == f.is_mutation,
                    None => r matches Err(e) && e@ == ErrorModel::FunctionNotFound(
                        "No endpoint found for function: "@ + function_name@,
                    ),
                }),
            }),
    {
        let is_mutation = match self.get_function_metadata(function_name) {
            Some(f) => f.is_mutation,
            None => {
                return Err(RpcClientError::FunctionNotFound(function_name.to_owned()));
            },
        };
        match self.find_endpoint_for_function(function_name) {
            Some(endpoint) => Ok((endpoint, is_mutation)),
            None => {
                let mut msg = String::from_str("No endpoint found for function: ");
                msg.append(function_name);
                Err(RpcClientError::FunctionNotFound(msg))
            },
        }
    }
}

/// The text of the error raised by a failing HTTP status.
pub open spec fn server_error_text_of(endpoint: Seq<char>, status: nat, body: Seq<char>) -> Seq<
    char,
> {
    "Endpoint "@ + endpoint + " failed with status "@ + dec_rep(status) + ": "@ + body
}

/// Interprets one HTTP response: a failing status becomes a server error
/// carrying the status and body; a successful one is parsed as JSON.
pub fn interpret_response(endpoint: &str, status: u16, body: &str) -> (r: Result<
    JsonValue,
    RpcClientError,
>)
    ensures
        200 <= status < 300 ==> (match crate::json::json_of_text(body@) {
            Some(m) => r matches Ok(v) && v@ == m,
            None => r matches Err(e) && e@ == ErrorModel::JsonError(
                "response body is not valid JSON"@,
            ),
        }),
        !(200 <= status < 300) ==> (r matches Err(e) && e@ == ErrorModel::ServerError(
            server_error_text_of(endpoint@, status as nat, body@),
        )),
{
    if status < 200 || status >= 300 {
        let mut msg = String::from_str("Endpoint ");
        msg.append(endpoint);
        msg.append(" failed with status ");
        let status_text = crate::text::u64_to_text(status as u64);
        msg.append(status_text.as_str());
        msg.append(": ");
        msg.append(body);
        Err(RpcClientError::ServerError(msg))
    } else {
        match crate::json::parse_json(body) {
            Some(v) => Ok(v),
            None => Err(
                RpcClientError::JsonError(String::from_str("response body is not valid JSON")),
            ),
        }
    }
}

/// The body of the server's metadata document.
#[derive(Debug)]
pub struct MetadataResponse {
    pub total_functions: usize,
    pub functions: Vec<JsonValue>,
    pub endpoints_discovery: Vec<JsonValue>,
    pub total_endpoints: usize,
}

/// The model of the metadata document body.
pub struct MetadataResponseModel {
    pub total_functions: nat,
    pub functions: Seq<JsonModel>,
    pub endpoints_discovery: Seq<JsonModel>,
    pub total_endpoints: nat,
}

impl View for MetadataResponse {
    type V = MetadataResponseModel;

    open spec fn view(&self) -> MetadataResponseModel {
        MetadataResponseModel {
            total_functions: self.total_functions as nat,
            functions: arr_model(self.functions@),
            endpoints_discovery: arr_model(self.endpoints_discovery@),
            total_endpoints: self.total_endpoints as nat,
        }
    }
}

/// What the metadata document denotes: its two counters and its two entry
/// lists, present and well-typed; anything else is malformed.
pub open spec fn metadata_response_of(doc: JsonModel) -> Option<MetadataResponseModel> {
    match (
        doc.get("total_functions"@),
        doc.get("functions"@),
        doc.get("endpoints_discovery"@),
        doc.get("total_endpoints"@),
    ) {
        (
            Some(JsonModel::Num(tf)),
            Some(JsonModel::Arr(fs)),
            Some(JsonModel::Arr(eps)),
            Some(JsonModel::Num(te)),
        ) => {
            match (crate::text::dec_parsed(tf), crate::text::dec_parsed(te)) {
                (Some(a), Some(b)) => Some(
                    MetadataResponseModel {
                        total_functions: a,
                        functions: fs,
                        endpoints_discovery: eps,
                        total_endpoints: b,
                    },
                ),
                _ => None,
            }
        },
        _ => None,
    }
}

/// Reads the metadata document out of fetched text.
pub fn parse_metadata_response(text: &str) -> (r: Result<MetadataResponse, RpcClientError>)
    ensures
        (match crate::json::json_of_text(text@) {
            None => r matches Err(e) && e@ == ErrorModel::ServerError(
                "Failed to parse metadata JSON"@,
            ),
            Some(doc) => (match metadata_response_of(doc) {
                Some(m) => r matches Ok(resp) && resp@ == m,
                None => r matches Err(e) && e@ == ErrorModel::ServerError(
                    "Failed to parse metadata JSON"@,
                ),
            }),
        }),
{
    let doc = match crate::json::parse_json(text) {
        Some(d) => d,
        None => {
            return Err(
                RpcClientError::ServerError(String::from_str("Failed to parse metadata JSON")),
            );
        },
    };
    let total_functions = match doc.get("total_functions") {
        Some(v) => match v.as_num() {
            Some(n) => match crate::text::parse_usize(n.as_str()) {
                Some(x) => x,
                None => {
                    return Err(
                        RpcClientError::ServerError(
                            String::from_str("Failed to parse metadata JSON"),
                        ),
                    );
                },
            },
            None => {
                return Err(
                    RpcClientError::ServerError(String::from_str("Failed to parse metadata JSON")),
                );
            },
        },
        None => {
            return Err(
                RpcClientError::ServerError(String::from_str("Failed to parse metadata JSON")),
            );
        },
    };
    let functions = match doc.get("functions") {
        Some(v) => match v.as_array() {
            Some(items) => crate::json::clone_json_vec(items),
            None => {
                return Err(
                    RpcClientError::ServerError(String::from_str("Failed to parse metadata JSON")),
                );
            },
        },
        None => {
            return Err(
                RpcClientError::ServerError(String::from_str("Failed to parse metadata JSON")),
            );
        },
    };
    let endpoints_discovery = match doc.get("endpoints_discovery") {
        Some(v) => match v.as_array() {
            Some(items) => crate::json::clone_json_vec(items),
            None => {
                return Err(
                    RpcClientError::ServerError(String::from_str("Failed to parse metadata JSON")),
                );
            },
        },
        None => {
            return Err(
                RpcClientError::ServerError(String::from_str("Failed to parse metadata JSON")),
            );
        },
    };
    let total_endpoints = match doc.get("total_endpoints") {
        Some(v) => match v.as_num() {
            Some(n) => match crate::text::parse_usize(n.as_str()) {
                Some(x) => x,
                None => {
                    return Err(
                        RpcClientError::ServerError(
                            String::from_str("Failed to parse metadata JSON"),
                        ),
                    );
                },
            },
            None => {
                return Err(
                    RpcClientError::ServerError(String::from_str("Failed to parse metadata JSON")),
                );
            },
        },
        None => {
            return Err(
                RpcClientError::ServerError(String::from_str("Failed to parse metadata JSON")),
            );
        },
    };
    let resp = MetadataResponse { total_functions, functions, endpoints_discovery, total_endpoints };
    proof {
        let m = metadata_response_of(doc@).unwrap();
        assert(resp@.functions =~= m.functions);
        assert(resp@.endpoints_discovery =~= m.endpoints_discovery);
    }
    Ok(resp)
}

/// A boolean member, absent or otherwise-typed members counting as false.
pub open spec fn opt_bool(m: Option<JsonModel>) -> bool {
    match m {
        Some(JsonModel::Bool(b)) => b,
        _ => false,
    }
}

/// A string member, absent or otherwise-typed members counting as absent.
pub open spec fn opt_str(m: Option<JsonModel>) -> Option<Seq<char>> {
    match m {
        Some(JsonModel::Str(s)) => Some(s),
        _ => None,
    }
}

/// A member carried through as a value, an absent one as null.
pub open spec fn or_null(m: Option<JsonModel>) -> JsonModel {
    match m {
        Some(x) => x,
        None => JsonModel::Null,
    }
}

/// What one function entry of the document denotes: the name and the output
/// type name are required strings, everything else has a default.
pub open spec fn function_entry_of(v: JsonModel) -> Result<RpcFunctionModel, ErrorModel> {
    if !(v.get("function_name"@) matches Some(JsonModel::Str(_))) {
        Err(ErrorModel::InvalidParameter("Missing function_name"@))
    } else if !(v.get("output_type_name"@) matches Some(JsonModel::Str(_))) {
        Err(ErrorModel::InvalidParameter("Missing output_type_name"@))
    } else {
        Ok(
            RpcFunctionModel {
                name: v.get("function_name"@)->0->Str_0,
                is_mutation: opt_bool(v.get("is_mutation"@)),
                is_async: opt_bool(v.get("is_async"@)),
                input_type_name: opt_str(v.get("input_type_name"@)),
                output_type_name: v.get("output_type_name"@)->0->Str_0,
                params: seq![or_null(v.get("params"@))],
                input_schema_json: opt_str(v.get("input_schema_json"@)),
                output_schema_json: opt_str(v.get("output_schema_json"@)),
            },
        )
    }
}

/// Reads one function entry of the metadata document.
pub fn parse_rpc_function(v: &JsonValue) -> (r: Result<RpcFunction, RpcClientError>)
    ensures
        (match r {
            Ok(f) => function_entry_of(v@) == Ok::<RpcFunctionModel, ErrorModel>(f@),
            Err(e) => function_entry_of(v@) == Err::<RpcFunctionModel, ErrorModel>(e@),
        }),
{
    let name = match v.get("function_name") {
        Some(t) => match t.as_str() {
            Some(x) => x.clone(),
            None => {
                return Err(
                    RpcClientError::InvalidParameter(String::from_str("Missing function_name")),
                );
            },
        },
        None => {
            return Err(
                RpcClientError::InvalidParameter(String::from_str("Missing function_name")),
            );
        },
    };
    let output_type_name = match v.get("output_type_name") {
        Some(t) => match t.as_str() {
            Some(x) => x.clone(),
            None => {
                return Err(
                    RpcClientError::InvalidParameter(String::from_str("Missing output_type_name")),
                );
            },
        },
        None => {
            return Err(
                RpcClientError::InvalidParameter(String::from_str("Missing output_type_name")),
            );
        },
    };
    let is_mutation = match v.get("is_mutation") {
        Some(t) => match t.as_bool() {
            Some(b) => b,
            None => false,
        },
        None => false,
    };
    let is_async = match v.get("is_async") {
        Some(t) => match t.as_bool() {
            Some(b) => b,
            None => false,
        },
        None => false,
    };
    let input_type_name = match v.get("input_type_name") {
        Some(t) => match t.as_str() {
            Some(x) => Some(x.clone()),
            None => None,
        },
        None => None,
    };
    let input_schema_json = match v.get("input_schema_json") {
        Some(t) => match t.as_str() {
            Some(x) => Some(x.clone()),
            None => None,
        },
        None => None,
    };
    let output_schema_json = match v.get("output_schema_json") {
        Some(t) => match t.as_str() {
            Some(x) => Some(x.clone()),
            None => None,
        },
        None => None,
    };
    let params_value = match v.get("params") {
        Some(t) => crate::json::clone_json(t),
        None => JsonValue::Null,
    };
    let mut params: Vec<JsonValue> = Vec::new();
    params.push(params_value);
    let f = RpcFunction {
        name,
        is_mutation,
        is_async,
        input_type_name,
        output_type_name,
        params,
        input_schema_json,
        output_schema_json,
    };
    proof {
        assert(f@.params =~= seq![or_null(v@.get("params"@))]);
    }
    Ok(f)
}

/// The string elements of a list, in order, other elements dropped.
pub open spec fn str_items(items: Seq<JsonModel>) -> Seq<Seq<char>>
    decreases items.len(),
{
    if items.len() == 0 {
        Seq::empty()
    } else {
        str_items(items.drop_last()) + (if items.last() is Str {
            seq![items.last()->Str_0]
        } else {
            Seq::empty()
        })
    }
}

/// What one endpoint entry of the document denotes: the URI is a required
/// string, the verbs a required list whose string elements are kept.
pub open spec fn endpoint_entry_of(v: JsonModel) -> Result<EndpointModel, ErrorModel> {
    if !(v.get("uri"@) matches Some(JsonModel::Str(_))) {
        Err(ErrorModel::InvalidParameter("Missing endpoint uri"@))
    } else if !(v.get("methods"@) matches Some(JsonModel::Arr(_))) {
        Err(ErrorModel::InvalidParameter("Missing endpoint methods"@))
    } else {
        Ok(
            EndpointModel {
                uri: v.get("uri"@)->0->Str_0,
                methods: str_items(v.get("methods"@)->0->Arr_0),
            },
        )
    }
}

/// Reads one endpoint entry of the metadata document.
pub fn parse_endpoint_entry(v: &JsonValue) -> (r: Result<EndpointDiscovery, RpcClientError>)
    ensures
        (match r {
            Ok(ep) => endpoint_entry_of(v@) == Ok::<EndpointModel, ErrorModel>(ep@),
            Err(e) => endpoint_entry_of(v@) == Err::<EndpointModel, ErrorModel>(e@),
        }),
{
    let uri = match v.get("uri") {
        Some(t) => match t.as_str() {
            Some(x) => x.clone(),
            None => {
                return Err(
                    RpcClientError::InvalidParameter(String::from_str("Missing endpoint uri")),
                );
            },
        },
        None => {
            return Err(RpcClientError::InvalidParameter(String::from_str("Missing endpoint uri")));
        },
    };
    let items = match v.get("methods") {
        Some(t) => match t.as_array() {
            Some(a) => a,
            None => {
                return Err(
                    RpcClientError::InvalidParameter(String::from_str("Missing endpoint methods")),
                );
            },
        },
        None => {
            return Err(
                RpcClientError::InvalidParameter(String::from_str("Missing endpoint methods")),
            );
        },
    };
    let ghost js = arr_model(items@);
    let mut methods: Vec<String> = Vec::new();
    let mut i: usize = 0;
    while i < items.len()
        invariant
            i <= items@.len(),
            js == arr_model(items@),
            js.len() == items@.len(),
            Seq::new(methods@.len() as nat, |k: int| methods@[k]@) =~= str_items(
                js.take(i as int),
            ),
        decreases items@.len() - i,
    {
        proof {
            assert(js.take(i + 1).drop_last() =~= js.take(i as int));
            assert(js.take(i + 1).last() == js[i as int]);
        }
        match items[i].as_str() {
            Some(s) => {
                methods.push(s.clone());
            },
            None => {},
        }
        proof {
            assert(Seq::new(methods@.len() as nat, |k: int| methods@[k]@) =~= str_items(
                js.take(i + 1),
            ));
        }
        i = i + 1;
    }
    let ep = EndpointDiscovery { uri, methods };
    proof {
        assert(js.take(js.len() as int) =~= js);
        assert(ep@.methods =~= str_items(js));
    }
    Ok(ep)
}

/// What the document's function list denotes: every entry read in order,
/// the first malformed one failing the whole list.
pub open spec fn functions_of_entries(entries: Seq<JsonModel>) -> Result<
    Seq<RpcFunctionModel>,
    ErrorModel,
>
    decreases entries.len(),
{
    if entries.len() == 0 {
        Ok(Seq::empty())
    } else {
        match function_entry_of(entries[0]) {
            Err(e) => Err(e),
            Ok(f) => match functions_of_entries(entries.drop_first()) {
                Err(e) => Err(e),
                Ok(rest) => Ok(seq![f] + rest),
            },
        }
    }
}

/// What the document's endpoint list denotes, in the same way.
pub open spec fn endpoints_of_entries(entries: Seq<JsonModel>) -> Result<
    Seq<EndpointModel>,
    ErrorModel,
>
    decreases entries.len(),
{
    if entries.len() == 0 {
        Ok(Seq::empty())
    } else {
        match endpoint_entry_of(entries[0]) {
            Err(e) => Err(e),
            Ok(ep) => match endpoints_of_entries(entries.drop_first()) {
                Err(e) => Err(e),
                Ok(rest) => Ok(seq![ep] + rest),
            },
        }
    }
}

proof fn lemma_functions_entries_complete(entries: Seq<JsonModel>, ms: Seq<RpcFunctionModel>)
    requires
        entries.len() == ms.len(),
        forall|k: int|
            0 <= k < entries.len() ==> function_entry_of(#[trigger] entries[k]) == Ok::<
                RpcFunctionModel,
                ErrorModel,
            >(ms[k]),
    ensures
        functions_of_entries(entries) == Ok::<Seq<RpcFunctionModel>, ErrorModel>(ms),
    decreases entries.len(),
{
    if entries.len() == 0 {
        assert(ms =~= Seq::<RpcFunctionModel>::empty());
    } else {
        lemma_functions_entries_complete(entries.drop_first(), ms.drop_first());
        assert(seq![ms[0]] + ms.drop_first() =~= ms);
    }
}

proof fn lemma_functions_entries_fail(entries: Seq<JsonModel>, i: int)
    requires
        0 <= i < entries.len(),
        forall|k: int| 0 <= k < i ==> function_entry_of(#[trigger] entries[k]) is Ok,
        function_entry_of(entries[i]) is Err,
    ensures
        functions_of_entries(entries) == Err::<Seq<RpcFunctionModel>, ErrorModel>(
            function_entry_of(entries[i])->Err_0,
        ),
    decreases i,
{
    if i > 0 {
        lemma_functions_entries_fail(entries.drop_first(), i - 1);
    }
}

proof fn lemma_endpoints_entries_complete(entries: Seq<JsonModel>, ms: Seq<EndpointModel>)
    requires
        entries.len() == ms.len(),
        forall|k: int|
            0 <= k < entries.len() ==> endpoint_entry_of(#[trigger] entries[k]) == Ok::<
                EndpointModel,
                ErrorModel,
            >(ms[k]),
    ensures
        endpoints_of_entries(entries) == Ok::<Seq<EndpointModel>, ErrorModel>(ms),
    decreases entries.len(),
{
    if entries.len() == 0 {
        assert(ms =~= Seq::<EndpointModel>::empty());
    } else {
        lemma_endpoints_entries_complete(entries.drop_first(), ms.drop_first());
        assert(seq![ms[0]] + ms.drop_first() =~= ms);
    }
}

proof fn lemma_endpoints_entries_fail(entries: Seq<JsonModel>, i: int)
    requires
        0 <= i < entries.len(),
        forall|k: int| 0 <= k < i ==> endpoint_entry_of(#[trigger] entries[k]) is Ok,
        endpoint_entry_of(entries[i]) is Err,
    ensures
        endpoints_of_entries(entries) == Err::<Seq<EndpointModel>, ErrorModel>(
            endpoint_entry_of(entries[i])->Err_0,
        ),
    decreases i,
{
    if i > 0 {
        lemma_endpoints_entries_fail(entries.drop_first(), i - 1);
    }
}

/// What applying a fetched document comes to: the parsed function and
/// endpoint lists, or the first error on the way.
pub open spec fn apply_outcome_of(text: Seq<char>) -> Result<
    (Seq<RpcFunctionModel>, Seq<EndpointModel>),
    ErrorModel,
> {
    match crate::json::json_of_text(text) {
        None => Err(ErrorModel::ServerError("Failed to parse metadata JSON"@)),
        Some(doc) => match metadata_response_of(doc) {
            None => Err(ErrorModel::ServerError("Failed to parse metadata JSON"@)),
            Some(m) => match functions_of_entries(m.functions) {
                Err(e) => Err(e),
                Ok(fs) => match endpoints_of_entries(m.endpoints_discovery) {
                    Err(e) => Err(e),
                    Ok(eps) => Ok((fs, eps)),
                },
            },
        },
    }
}

/// The entry a name denotes under last-write-wins registration.
pub open spec fn last_entry_model(fs: Seq<RpcFunctionModel>, name: Seq<char>) -> Option<
    RpcFunctionModel,
>
    decreases fs.len(),
{
    if fs.len() == 0 {
        None
    } else if fs.last().name == name {
        Some(fs.last())
    } else {
        last_entry_model(fs.drop_last(), name)
    }
}

/// A lookup result seen at the model level.
pub open spec fn view_opt(o: Option<RpcFunction>) -> Option<RpcFunctionModel> {
    match o {
        Some(f) => Some(f@),
        None => None,
    }
}

/// The models of an endpoint list, in order.
pub open spec fn ep_models(eps: Seq<EndpointDiscovery>) -> Seq<EndpointModel> {
    Seq::new(eps.len(), |i: int| eps[i]@)
}

/// A field-for-field copy of a function entry.
pub fn clone_rpc_function(f: &RpcFunction) -> (r: RpcFunction)
    ensures
        r@ == f@,
        r.name@ == f.name@,
{
    let r = RpcFunction {
        name: f.name.clone(),
        is_mutation: f.is_mutation,
        is_async: f.is_async,
        input_type_name: match &f.input_type_name {
            Some(s) => Some(s.clone()),
            None => None,
        },
        output_type_name: f.output_type_name.clone(),
        params: crate::json::clone_json_vec(&f.params),
        input_schema_json: match &f.input_schema_json {
            Some(s) => Some(s.clone()),
            None => None,
        },
        output_schema_json: match &f.output_schema_json {
            Some(s) => Some(s.clone()),
            None => None,
        },
    };
    proof {
        assert(r@.params =~= f@.params);
    }
    r
}

impl LocoClient {
    /// Replaces the client's metadata with what a fetched document holds.
    /// A malformed document changes nothing and surfaces its first error.
    pub fn apply_metadata_text(&mut self, text: &str) -> (r: Result<(), RpcClientError>)
        ensures
            final(self).server_addr == old(self).server_addr,
            final(self).api_prefix == old(self).api_prefix,
            (match apply_outcome_of(text@) {
                Err(e) => r matches Err(er) && er@ == e && *final(self) == *old(self),
                Ok((fs, eps)) => r is Ok && fn_names_unique(final(self).functions@) && (forall|
                    n: Seq<char>,
                |
                    #[trigger] view_opt(fn_lookup(final(self).functions@, n)) == last_entry_model(
                        fs,
                        n,
                    )) && ep_models(final(self).endpoints_discovery@) =~= eps,
            }),
    {
        let resp = match parse_metadata_response(text) {
            Ok(m) => m,
            Err(e) => {
                return Err(e);
            },
        };
        let ghost fentries = resp@.functions;
        let mut parsed: Vec<RpcFunction> = Vec::new();
        let mut i: usize = 0;
        while i < resp.functions.len()
            invariant
                i <= resp.functions@.len(),
                fentries == arr_model(resp.functions@),
                fentries.len() == resp.functions@.len(),
                parsed@.len() == i as int,
                (match crate::json::json_of_text(text@) {
                    Some(doc) => metadata_response_of(doc) == Some(resp@),
                    None => false,
                }),
                forall|k: int|
                    0 <= k < i ==> function_entry_of(fentries[k]) == Ok::<
                        RpcFunctionModel,
                        ErrorModel,
                    >(#[trigger] parsed@[k]@),
            decreases resp.functions@.len() - i,
        {
            match parse_rpc_function(&resp.functions[i]) {
                Ok(f) => {
                    parsed.push(f);
                },
                Err(e) => {
                    proof {
                        assert forall|k: int| 0 <= k < i implies function_entry_of(
                            #[trigger] fentries[k],
                        ) is Ok by {
                            assert(function_entry_of(fentries[k]) == Ok::<
                                RpcFunctionModel,
                                ErrorModel,
                            >(parsed@[k]@));
                        }
                        lemma_functions_entries_fail(fentries, i as int);
                    }
                    return Err(e);
                },
            }
            i = i + 1;
        }
        let ghost fmodels = Seq::new(parsed@.len() as nat, |k: int| parsed@[k]@);
        proof {
            assert forall|k: int| 0 <= k < fentries.len() implies function_entry_of(
                #[trigger] fentries[k],
            ) == Ok::<RpcFunctionModel, ErrorModel>(fmodels[k]) by {
                assert(function_entry_of(fentries[k]) == Ok::<RpcFunctionModel, ErrorModel>(
                    parsed@[k]@,
                ));
            }
            lemma_functions_entries_complete(fentries, fmodels);
        }
        let ghost eentries = resp@.endpoints_discovery;
        let mut endpoints: Vec<EndpointDiscovery> = Vec::new();
        let mut j: usize = 0;
        while j < resp.endpoints_discovery.len()
            invariant
                j <= resp.endpoints_discovery@.len(),
                eentries == arr_model(resp.endpoints_discovery@),
                eentries.len() == resp.endpoints_discovery@.len(),
                endpoints@.len() == j as int,
                (match crate::json::json_of_text(text@) {
                    Some(doc) => metadata_response_of(doc) == Some(resp@),
                    None => false,
                }),
                functions_of_entries(resp@.functions) == Ok::<Seq<RpcFunctionModel>, ErrorModel>(
                    fmodels,
                ),
                forall|k: int|
                    0 <= k < j ==> endpoint_entry_of(eentries[k]) == Ok::<
                        EndpointModel,
                        ErrorModel,
                    >(#[trigger] endpoints@[k]@),
            decreases resp.endpoints_discovery@.len() - j,
        {
            match parse_endpoint_entry(&resp.endpoints_discovery[j]) {
                Ok(ep) => {
                    endpoints.push(ep);
                },
                Err(e) => {
                    proof {
                        assert forall|k: int| 0 <= k < j implies endpoint_entry_of(
                            #[trigger] eentries[k],
                        ) is Ok by {
                            assert(endpoint_entry_of(eentries[k]) == Ok::<
                                EndpointModel,
                                ErrorModel,
                            >(endpoints@[k]@));
                        }
                        lemma_endpoints_entries_fail(eentries, j as int);
                    }
                    return Err(e);
                },
            }
            j = j + 1;
        }
        let ghost emodels = Seq::new(endpoints@.len() as nat, |k: int| endpoints@[k]@);
        proof {
            assert forall|k: int| 0 <= k < eentries.len() implies endpoint_entry_of(
                #[trigger] eentries[k],
            ) == Ok::<EndpointModel, ErrorModel>(emodels[k]) by {
                assert(endpoint_entry_of(eentries[k]) == Ok::<EndpointModel, ErrorModel>(
                    endpoints@[k]@,
                ));
            }
            lemma_endpoints_entries_complete(eentries, emodels);
        }
        self.endpoints_discovery = endpoints;
        self.functions = Vec::new();
        proof {
            assert(fn_names_unique(self.functions@));
        }
        let mut t: usize = 0;
        while t < parsed.len()
            invariant
                t <= parsed@.len(),
                fmodels.len() == parsed@.len(),
                forall|k: int| 0 <= k < parsed@.len() ==> fmodels[k] == #[trigger] parsed@[k]@,
                self.server_addr == old(self).server_addr,
                self.api_prefix == old(self).api_prefix,
                ep_models(self.endpoints_discovery@) =~= emodels,
                fn_names_unique(self.functions@),
                forall|n: Seq<char>|
                    #[trigger] view_opt(fn_lookup(self.functions@, n)) == last_entry_model(
                        fmodels.take(t as int),
                        n,
                    ),
            decreases parsed@.len() - t,
        {
            let f = clone_rpc_function(&parsed[t]);
            self.insert_function(f);
            proof {
                assert(fmodels.take(t + 1).drop_last() =~= fmodels.take(t as int));
                assert(fmodels.take(t + 1).last() == fmodels[t as int]);
            }
            t = t + 1;
        }
        proof {
            assert(fmodels.take(fmodels.len() as int) =~= fmodels);
        }
        Ok(())
    }
}

/// The outcome of initialization: the client itself, and whether it came up
/// degraded (empty metadata) and why.
#[derive(Debug)]
pub struct InitResult {
    pub client: LocoClient,
    pub degraded: bool,
    pub cause: Option<RpcClientError>,
}

/// Builds a client from the outcome of the metadata fetch. Initialization
/// never fails: on a fetch error or a malformed document the client comes up
/// with empty metadata, marked degraded, and stays usable for direct
/// endpoint calls.
pub fn init_with_document(server_addr: ServerAddr, fetched: Result<String, RpcClientError>) -> (r:
    InitResult)
    ensures
        r.client.server_addr == server_addr,
        r.client.api_prefix@ == "/api"@,
        (match fetched {
            Err(e) => r.degraded && r.client.functions@.len() == 0
                && r.client.endpoints_discovery@.len() == 0 && (r.cause matches Some(c) && c@
                == e@),
            Ok(text) => (match apply_outcome_of(text@) {
                Err(e2) => r.degraded && r.client.functions@.len() == 0
                    && r.client.endpoints_discovery@.len() == 0 && (r.cause matches Some(c) && c@
                    == e2),
                Ok((fs, eps)) => !r.degraded && r.cause is None && fn_names_unique(
                    r.client.functions@,
                ) && (forall|n: Seq<char>|
                    #[trigger] view_opt(fn_lookup(r.client.functions@, n)) == last_entry_model(
                        fs,
                        n,
                    )) && ep_models(r.client.endpoints_discovery@) =~= eps,
            }),
        }),
{
    let mut client = LocoClient::new(server_addr);
    match fetched {
        Ok(text) => {
            match client.apply_metadata_text(text.as_str()) {
                Ok(_) => InitResult { client, degraded: false, cause: None },
                Err(e) => InitResult { client, degraded: true, cause: Some(e) },
            }
        },
        Err(e) => InitResult { client, degraded: true, cause: Some(e) },
    }
}

} // verus!
