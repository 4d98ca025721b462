//! The configuration of a binding and its validation.
//!
//! One binding is one Elasticsearch operation against configured base URLs and
//! an index allowlist.

use vstd::prelude::*;
use vstd::string::StringExecFns;

use crate::json::Json;
use crate::surface::Surface;
use crate::text::{chars_of, has_at, is_blank, same_text, string_of};

verus! {

/// The configuration of one binding.
#[derive(Clone)]
pub struct ElasticsearchBackendSpec {
    /// Base URLs. The first is the primary one, the others are tried in order
    /// when the transport fails.
    pub urls: Vec<String>,
    /// The operation that the binding exposes.
    pub operation: EsOperation,
    /// The index of a call that names none.
    pub default_index: Option<String>,
    /// The reachable indices. An entry that ends in `*` covers every index that
    /// begins with what stands before the star.
    pub index_allowlist: Vec<String>,
    /// Whether every valid index is reachable.
    pub allow_any_index: bool,
    /// Whether operations that change an index are allowed.
    pub allow_writes: bool,
    /// Whether query bodies may carry scripts.
    pub allow_scripting: bool,
    /// Credentials.
    pub auth: EsAuth,
    /// TLS settings.
    pub tls: EsTlsConfig,
    pub connect_timeout_ms: u64,
    pub operation_timeout_ms: u64,
    pub max_response_bytes: usize,
    pub max_request_bytes: usize,
    pub max_size: u64,
    pub max_from: u64,
    /// Whether hosts that resolve to private addresses may be called.
    pub allow_private_backends: bool,
    /// The surface that the binding serves.
    pub surface: Surface,
    /// The URI of the resource, for the resource surface.
    pub uri: Option<String>,
    /// How resources are listed.
    pub list_query: Option<ListQueryConfig>,
    /// How template variables are completed, by ascending name of the variable,
    /// each name once.
    pub variable_completions: Vec<(String, EsCompletionConfig)>,
    /// The vector search, for the operation that needs one.
    pub knn: Option<KnnConfig>,
}

/// One element of a configured query vector.
#[derive(Debug, Clone, PartialEq)]
pub enum VectorElement {
    /// A finite number.
    Finite(serde_json::Number),
    /// An infinity or no number at all.
    NonFinite,
}

/// A vector search.
#[derive(Debug, Clone, PartialEq)]
pub struct KnnConfig {
    /// The vector field to search.
    pub field: String,
    /// The number of neighbours.
    pub k: usize,
    /// The number of candidates per shard.
    pub num_candidates: Option<usize>,
    /// A fixed query that the hits must match too.
    pub filter: Option<Json>,
    /// The query vector of a call that carries none.
    pub query_vector: Option<Vec<VectorElement>>,
}

/// The search that lists resources.
#[derive(Debug, Clone, PartialEq)]
pub struct ListQueryConfig {
    /// The index to search, or the default index.
    pub index: Option<String>,
    /// The fixed query, or one that matches everything.
    pub query: Option<Json>,
    /// The dotted path of the URI in a hit.
    pub uri_field: String,
    /// The dotted path of the display name.
    pub name_field: Option<String>,
    /// The dotted path of the description.
    pub description_field: Option<String>,
    /// Hits per page.
    pub page_size: u64,
}

/// The search that completes one template variable.
#[derive(Debug, Clone, PartialEq)]
pub struct EsCompletionConfig {
    /// The index to search, or the default index.
    pub index: Option<String>,
    /// The field that is matched and returned.
    pub field: String,
    /// A fixed query that the hits must match too.
    pub filter: Option<Json>,
    /// The most candidates to return.
    pub max_results: Option<u32>,
}

/// The operations.
#[derive(Debug, Clone, Copy, PartialEq, Eq, Structural)]
pub enum EsOperation {
    Search,
    Count,
    Get,
    Index,
    Delete,
    Bulk,
    Msearch,
    Knn,
}

/// Credentials of a binding.
#[derive(Clone)]
pub enum EsAuth {
    /// No credentials.
    Anonymous,
    /// An encoded API key.
    ApiKey { api_key: String },
    /// User name and password.
    Basic { username: String, password: String },
    /// A bearer token.
    Bearer { token: String },
}

/// TLS settings of a binding.
#[derive(Clone)]
pub struct EsTlsConfig {
    /// Certificates of a private authority.
    pub ca_cert_pem: Option<String>,
    /// Whether the server's certificate goes unchecked.
    pub insecure_skip_verify: bool,
}

impl Default for EsAuth {
    fn default() -> (r: Self)
        ensures
            r is Anonymous,
    {
        EsAuth::Anonymous
    }
}

impl Default for EsTlsConfig {
    fn default() -> (r: Self)
        ensures
            r.ca_cert_pem is None,
            !r.insecure_skip_verify,
    {
        EsTlsConfig { ca_cert_pem: None, insecure_skip_verify: false }
    }
}

/// What is wrong with a configuration.
#[derive(Debug, PartialEq, Eq)]
pub enum SpecError {
    Json(String),
    EmptyUrls,
    InvalidUrl(String),
    InvalidIndexToken(String),
    NoReachableIndex,
    DefaultIndexNotAllowed(String),
    WritesNotAllowed(&'static str),
    InsecureSkipVerifyNonLoopback,
    TlsContradiction,
    EmptyAuthSecret,
    InvalidOperationTimeout,
    InvalidConnectTimeout,
    InvalidResponseBytes,
    InvalidRequestBytes,
    InvalidMaxSize,
    UriRequiresResourceSurface,
    EmptyUri,
    EmptyListUriField,
    InvalidListPageSize,
    InvalidListIndex(String),
    InvalidCompletionField(String, String),
    InvalidCompletionIndex(String, String),
    KnnConfigMissing,
    KnnConfigUnused,
    InvalidKnnField,
    InvalidKnnK,
    InvalidKnnLiteralVector,
}

/// What a `SpecError` says.
pub enum SpecFault {
    Json(Seq<char>),
    EmptyUrls,
    InvalidUrl(Seq<char>),
    InvalidIndexToken(Seq<char>),
    NoReachableIndex,
    DefaultIndexNotAllowed(Seq<char>),
    WritesNotAllowed(Seq<char>),
    InsecureSkipVerifyNonLoopback,
    TlsContradiction,
    EmptyAuthSecret,
    InvalidOperationTimeout,
    InvalidConnectTimeout,
    InvalidResponseBytes,
    InvalidRequestBytes,
    InvalidMaxSize,
    UriRequiresResourceSurface,
    EmptyUri,
    EmptyListUriField,
    InvalidListPageSize,
    InvalidListIndex(Seq<char>),
    InvalidCompletionField(Seq<char>, Seq<char>),
    InvalidCompletionIndex(Seq<char>, Seq<char>),
    KnnConfigMissing,
    KnnConfigUnused,
    InvalidKnnField,
    InvalidKnnK,
    InvalidKnnLiteralVector,
}

impl View for SpecError {
    type V = SpecFault;

    open spec fn view(&self) -> SpecFault {
        match self {
            SpecError::Json(m) => SpecFault::Json(m@),
            SpecError::EmptyUrls => SpecFault::EmptyUrls,
            SpecError::InvalidUrl(u) => SpecFault::InvalidUrl(u@),
            SpecError::InvalidIndexToken(t) => SpecFault::InvalidIndexToken(t@),
            SpecError::NoReachableIndex => SpecFault::NoReachableIndex,
            SpecError::DefaultIndexNotAllowed(i) => SpecFault::DefaultIndexNotAllowed(i@),
            SpecError::WritesNotAllowed(op) => SpecFault::WritesNotAllowed(op@),
            SpecError::InsecureSkipVerifyNonLoopback => SpecFault::InsecureSkipVerifyNonLoopback,
            SpecError::TlsContradiction => SpecFault::TlsContradiction,
            SpecError::EmptyAuthSecret => SpecFault::EmptyAuthSecret,
            SpecError::InvalidOperationTimeout => SpecFault::InvalidOperationTimeout,
            SpecError::InvalidConnectTimeout => SpecFault::InvalidConnectTimeout,
            SpecError::InvalidResponseBytes => SpecFault::InvalidResponseBytes,
            SpecError::InvalidRequestBytes => SpecFault::InvalidRequestBytes,
            SpecError::InvalidMaxSize => SpecFault::InvalidMaxSize,
            SpecError::UriRequiresResourceSurface => SpecFault::UriRequiresResourceSurface,
            SpecError::EmptyUri => SpecFault::EmptyUri,
            SpecError::EmptyListUriField => SpecFault::EmptyListUriField,
            SpecError::InvalidListPageSize => SpecFault::InvalidListPageSize,
            SpecError::InvalidListIndex(m) => SpecFault::InvalidListIndex(m@),
            SpecError::InvalidCompletionField(n, f) => SpecFault::InvalidCompletionField(n@, f@),
            SpecError::InvalidCompletionIndex(n, m) => SpecFault::InvalidCompletionIndex(n@, m@),
            SpecError::KnnConfigMissing => SpecFault::KnnConfigMissing,
            SpecError::KnnConfigUnused => SpecFault::KnnConfigUnused,
            SpecError::InvalidKnnField => SpecFault::InvalidKnnField,
            SpecError::InvalidKnnK => SpecFault::InvalidKnnK,
            SpecError::InvalidKnnLiteralVector => SpecFault::InvalidKnnLiteralVector,
        }
    }
}

impl SpecFault {
    /// The message of a fault.
    pub open spec fn text(self) -> Seq<char> {
        match self {
            SpecFault::Json(m) => "elasticsearch spec JSON: "@ + m,
            SpecFault::EmptyUrls => "elasticsearch: urls must not be empty"@,
            SpecFault::InvalidUrl(u) => "elasticsearch: url `"@ + u
                + "` must be https:// (or http://localhost for tests)"@,
            SpecFault::InvalidIndexToken(t) => "elasticsearch: index token `"@ + t
                + "` is invalid"@,
            SpecFault::NoReachableIndex =>
                "elasticsearch: no reachable index — set index_allowlist, default_index, or allow_any_index"@,
            SpecFault::DefaultIndexNotAllowed(i) => "elasticsearch: default_index `"@ + i
                + "` is not covered by index_allowlist"@,
            SpecFault::WritesNotAllowed(op) => "elasticsearch: operation `"@ + op
                + "` is a write; set allow_writes: true"@,
            SpecFault::InsecureSkipVerifyNonLoopback =>
                "elasticsearch: tls.insecure_skip_verify requires all urls to be loopback"@,
            SpecFault::TlsContradiction =>
                "elasticsearch: tls.ca_cert_pem and tls.insecure_skip_verify are contradictory"@,
            SpecFault::EmptyAuthSecret => "elasticsearch: auth secret must not be empty"@,
            SpecFault::InvalidOperationTimeout =>
                "elasticsearch: operation_timeout_ms must be > 0"@,
            SpecFault::InvalidConnectTimeout => "elasticsearch: connect_timeout_ms must be > 0"@,
            SpecFault::InvalidResponseBytes => "elasticsearch: max_response_bytes must be > 0"@,
            SpecFault::InvalidRequestBytes => "elasticsearch: max_request_bytes must be > 0"@,
            SpecFault::InvalidMaxSize => "elasticsearch: max_size must be > 0"@,
            SpecFault::UriRequiresResourceSurface =>
                "elasticsearch: `uri` is only valid with `surface: resource`"@,
            SpecFault::EmptyUri => "elasticsearch: `uri` must not be empty"@,
            SpecFault::EmptyListUriField => "elasticsearch: list_query.uri_field must not be empty"@,
            SpecFault::InvalidListPageSize =>
                "elasticsearch: list_query.page_size must be 1..=1000"@,
            SpecFault::InvalidListIndex(m) => "elasticsearch: list_query.index — "@ + m,
            SpecFault::InvalidCompletionField(n, f) => "elasticsearch: variable_completions."@ + n
                + ".field `"@ + f + "` is not a safe field token"@,
            SpecFault::InvalidCompletionIndex(n, m) => "elasticsearch: variable_completions."@ + n
                + ".index — "@ + m,
            SpecFault::KnnConfigMissing =>
                "elasticsearch: operation `knn` requires a `knn` config block"@,
            SpecFault::KnnConfigUnused =>
                "elasticsearch: `knn` config is only valid with operation `knn`"@,
            SpecFault::InvalidKnnField =>
                "elasticsearch: knn.field must not be empty / must be a safe field token"@,
            SpecFault::InvalidKnnK => "elasticsearch: knn.k must be > 0"@,
            SpecFault::InvalidKnnLiteralVector =>
                "elasticsearch: knn.query_vector literal must be a non-empty array of finite numbers"@,
        }
    }
}

impl SpecError {
    /// The message of the error.
    pub fn message(&self) -> (r: String)
        ensures
            r@ == self@.text(),
    {
        match self {
            SpecError::Json(m) => "elasticsearch spec JSON: ".to_owned().concat(m.as_str()),
            SpecError::EmptyUrls => "elasticsearch: urls must not be empty".to_owned(),
            SpecError::InvalidUrl(u) => "elasticsearch: url `".to_owned().concat(u.as_str()).concat(
                "` must be https:// (or http://localhost for tests)",
            ),
            SpecError::InvalidIndexToken(t) => "elasticsearch: index token `".to_owned().concat(
                t.as_str(),
            ).concat("` is invalid"),
            SpecError::NoReachableIndex =>
                "elasticsearch: no reachable index — set index_allowlist, default_index, or allow_any_index".to_owned(),
            SpecError::DefaultIndexNotAllowed(i) => "elasticsearch: default_index `".to_owned().concat(
                i.as_str(),
            ).concat("` is not covered by index_allowlist"),
            SpecError::WritesNotAllowed(op) => "elasticsearch: operation `".to_owned().concat(
                op,
            ).concat("` is a write; set allow_writes: true"),
            SpecError::InsecureSkipVerifyNonLoopback =>
                "elasticsearch: tls.insecure_skip_verify requires all urls to be loopback".to_owned(),
            SpecError::TlsContradiction =>
                "elasticsearch: tls.ca_cert_pem and tls.insecure_skip_verify are contradictory".to_owned(),
            SpecError::EmptyAuthSecret => "elasticsearch: auth secret must not be empty".to_owned(),
            SpecError::InvalidOperationTimeout =>
                "elasticsearch: operation_timeout_ms must be > 0".to_owned(),
            SpecError::InvalidConnectTimeout =>
                "elasticsearch: connect_timeout_ms must be > 0".to_owned(),
            SpecError::InvalidResponseBytes =>
                "elasticsearch: max_response_bytes must be > 0".to_owned(),
            SpecError::InvalidRequestBytes =>
                "elasticsearch: max_request_bytes must be > 0".to_owned(),
            SpecError::InvalidMaxSize => "elasticsearch: max_size must be > 0".to_owned(),
            SpecError::UriRequiresResourceSurface =>
                "elasticsearch: `uri` is only valid with `surface: resource`".to_owned(),
            SpecError::EmptyUri => "elasticsearch: `uri` must not be empty".to_owned(),
            SpecError::EmptyListUriField =>
                "elasticsearch: list_query.uri_field must not be empty".to_owned(),
            SpecError::InvalidListPageSize =>
                "elasticsearch: list_query.page_size must be 1..=1000".to_owned(),
            SpecError::InvalidListIndex(m) => "elasticsearch: list_query.index — ".to_owned().concat(
                m.as_str(),
            ),
            SpecError::InvalidCompletionField(n, f) =>
                "elasticsearch: variable_completions.".to_owned().concat(n.as_str()).concat(
                ".field `",
            ).concat(f.as_str()).concat("` is not a safe field token"),
            SpecError::InvalidCompletionIndex(n, m) =>
                "elasticsearch: variable_completions.".to_owned().concat(n.as_str()).concat(
                ".index — ",
            ).concat(m.as_str()),
            SpecError::KnnConfigMissing =>
                "elasticsearch: operation `knn` requires a `knn` config block".to_owned(),
            SpecError::KnnConfigUnused =>
                "elasticsearch: `knn` config is only valid with operation `knn`".to_owned(),
            SpecError::InvalidKnnField =>
                "elasticsearch: knn.field must not be empty / must be a safe field token".to_owned(),
            SpecError::InvalidKnnK => "elasticsearch: knn.k must be > 0".to_owned(),
            SpecError::InvalidKnnLiteralVector =>
                "elasticsearch: knn.query_vector literal must be a non-empty array of finite numbers".to_owned(),
        }
    }
}

/// Hits per page of a listing that does not say.
pub fn default_list_page_size() -> (r: u64)
    ensures
        r == 100,
{
    100
}

/// Connect timeout in milliseconds of a binding that does not say.
pub fn default_connect_timeout_ms() -> (r: u64)
    ensures
        r == 5_000,
{
    5_000
}

/// Operation timeout in milliseconds of a binding that does not say.
pub fn default_operation_timeout_ms() -> (r: u64)
    ensures
        r == 30_000,
{
    30_000
}

/// Response cap of a binding that does not say: 4 MiB.
pub fn default_max_response_bytes() -> (r: usize)
    ensures
        r == 4 * 1024 * 1024,
{
    4 * 1024 * 1024
}

/// Request cap of a binding that does not say: 4 MiB.
pub fn default_max_request_bytes() -> (r: usize)
    ensures
        r == 4 * 1024 * 1024,
{
    4 * 1024 * 1024
}

/// Ceiling of `size` of a binding that does not say.
pub fn default_max_size() -> (r: u64)
    ensures
        r == 1_000,
{
    1_000
}

/// Ceiling of `from` of a binding that does not say.
pub fn default_max_from() -> (r: u64)
    ensures
        r == 10_000,
{
    10_000
}

impl EsOperation {
    /// The name of the operation.
    pub open spec fn name(self) -> Seq<char> {
        match self {
            EsOperation::Search => "search"@,
            EsOperation::Count => "count"@,
            EsOperation::Get => "get"@,
            EsOperation::Index => "index"@,
            EsOperation::Delete => "delete"@,
            EsOperation::Bulk => "bulk"@,
            EsOperation::Msearch => "msearch"@,
            EsOperation::Knn => "knn"@,
        }
    }

    /// The name of the operation.
    pub fn as_str(self) -> (r: &'static str)
        ensures
            r@ == self.name(),
    {
        match self {
            EsOperation::Search => "search",
            EsOperation::Count => "count",
            EsOperation::Get => "get",
            EsOperation::Index => "index",
            EsOperation::Delete => "delete",
            EsOperation::Bulk => "bulk",
            EsOperation::Msearch => "msearch",
            EsOperation::Knn => "knn",
        }
    }

    /// Whether the operation changes an index.
    pub open spec fn writes(self) -> bool {
        self is Index || self is Delete || self is Bulk
    }

    /// Whether the operation changes an index.
    pub fn is_write(self) -> (r: bool)
        ensures
            r == self.writes(),
    {
        matches!(self, EsOperation::Index | EsOperation::Delete | EsOperation::Bulk)
    }

    /// Whether a call of the operation has one index, rather than one per search.
    pub fn needs_index(self) -> (r: bool)
        ensures
            r == !(self is Msearch),
    {
        !matches!(self, EsOperation::Msearch)
    }
}

/// Two operations have one name exactly where they are the same operation.
pub proof fn law_operation_names_are_distinct(a: EsOperation, b: EsOperation)
    ensures
        a.name() == b.name() <==> a == b,
{
    reveal_strlit("search");
    reveal_strlit("count");
    reveal_strlit("get");
    reveal_strlit("index");
    reveal_strlit("delete");
    reveal_strlit("bulk");
    reveal_strlit("msearch");
    reveal_strlit("knn");
    assert("get"@.len() == 3 && "knn"@.len() == 3 && "get"@[0] == 'g' && "knn"@[0] == 'k');
    assert("bulk"@.len() == 4 && "msearch"@.len() == 7);
    assert("count"@.len() == 5 && "index"@.len() == 5 && "count"@[0] == 'c' && "index"@[0] == 'i');
    assert("search"@.len() == 6 && "delete"@.len() == 6);
    assert("search"@[0] == 's' && "delete"@[0] == 'd');
}

/// A letter or digit.
pub open spec fn alphanumeric(c: char) -> bool {
    'a' <= c <= 'z' || 'A' <= c <= 'Z' || '0' <= c <= '9'
}

/// A field name that is safe as a key of a query: letters, digits, `_` and `.`,
/// 1 to 256 of them.
pub open spec fn safe_field_token(s: Seq<char>) -> bool {
    &&& 0 < s.len() <= 256
    &&& forall|i: int|
        0 <= i < s.len() ==> alphanumeric(#[trigger] s[i]) || s[i] == '_' || s[i] == '.'
}

/// Whether a field name is safe as a key of a query.
pub fn is_safe_field_token(s: &str) -> (r: bool)
    ensures
        r == safe_field_token(s@),
{
    let cs = chars_of(s);
    if cs.len() == 0 || cs.len() > 256 {
        return false;
    }
    let mut i: usize = 0;
    while i < cs.len()
        invariant
            cs@ == s@,
            i <= cs@.len(),
            forall|j: int|
                0 <= j < i ==> alphanumeric(#[trigger] s@[j]) || s@[j] == '_' || s@[j] == '.',
        decreases cs@.len() - i,
    {
        let c = cs[i];
        let ok = ('a' <= c && c <= 'z') || ('A' <= c && c <= 'Z') || ('0' <= c && c <= '9') || c
            == '_' || c == '.';
        if !ok {
            assert(!(alphanumeric(s@[i as int]) || s@[i as int] == '_' || s@[i as int] == '.'));
            return false;
        }
        i += 1;
    }
    true
}

/// The end of the authority in what follows the scheme of a URL. A backslash ends it
/// like a slash, as it does to the clients of http.
pub open spec fn authority_end(c: char) -> bool {
    c == '/' || c == '\\' || c == '?' || c == '#'
}

/// What stands behind the last `@`, which is where userinfo ends.
pub open spec fn behind_userinfo(authority: Seq<char>) -> Seq<char>
    decreases authority.len(),
{
    if authority.len() == 0 {
        authority
    } else if authority.last() == '@' {
        Seq::empty()
    } else {
        behind_userinfo(authority.drop_last()).push(authority.last())
    }
}

/// A host with a port behind it, without the port. A host in brackets ends at its
/// closing bracket where the port or nothing follows, any other at the colon.
pub open spec fn without_port(s: Seq<char>) -> Seq<char> {
    if s.len() > 0 && s[0] == '[' {
        let close = crate::text::find_char(s, |c: char| c == ']');
        if close + 1 == s.len() || (close < s.len() && s[close + 1] == ':') {
            s.take(close + 1)
        } else {
            s
        }
    } else {
        s.take(crate::text::find_char(s, |c: char| c == ':'))
    }
}

/// The host in what follows the scheme of a URL.
pub open spec fn host_of(rest: Seq<char>) -> Seq<char> {
    let authority = rest.take(crate::text::find_char(rest, |c: char| authority_end(c)));
    without_port(behind_userinfo(authority))
}

/// Whether what follows the scheme of a URL has a loopback host.
pub open spec fn loopback_rest(rest: Seq<char>) -> bool {
    let host = host_of(rest);
    host == "localhost"@ || host == "127.0.0.1"@ || host == "[::1]"@
}

/// Whether a URL may be called: over https anywhere, over http on this host only.
pub open spec fn allowed_endpoint(url: Seq<char>) -> bool {
    if crate::text::starts_with(url, "https://"@) {
        url.len() > "https://"@.len()
    } else if crate::text::starts_with(url, "http://"@) {
        loopback_rest(url.skip("http://"@.len() as int))
    } else {
        false
    }
}

/// Whether a URL has a loopback host.
pub open spec fn loopback_url(url: Seq<char>) -> bool {
    if crate::text::starts_with(url, "https://"@) {
        loopback_rest(url.skip("https://"@.len() as int))
    } else if crate::text::starts_with(url, "http://"@) {
        loopback_rest(url.skip("http://"@.len() as int))
    } else {
        false
    }
}

proof fn lemma_behind_userinfo(s: Seq<char>, at: int)
    requires
        0 <= at <= s.len(),
        at > 0 ==> s[at - 1] == '@',
        forall|j: int| at <= j < s.len() ==> #[trigger] s[j] != '@',
    ensures
        behind_userinfo(s) == s.skip(at),
    decreases s.len(),
{
    if s.len() == 0 {
        assert(s.skip(at) =~= s);
    } else if at == s.len() {
        assert(s.skip(at) =~= Seq::empty());
    } else {
        assert(s[s.len() - 1] != '@');
        lemma_behind_userinfo(s.drop_last(), at);
        assert(s.drop_last().skip(at).push(s.last()) =~= s.skip(at));
    }
}

/// Where the authority ends that begins at `from`.
fn authority_stop(cs: &Vec<char>, from: usize) -> (r: usize)
    requires
        from <= cs@.len(),
    ensures
        from <= r <= cs@.len(),
        crate::text::find_char(cs@.skip(from as int), |c: char| authority_end(c)) == r - from,
{
    let ghost rest = cs@.skip(from as int);
    let ghost end = |c: char| authority_end(c);
    let mut i: usize = from;
    while i < cs.len() && cs[i] != '/' && cs[i] != '\\' && cs[i] != '?' && cs[i] != '#'
        invariant
            from <= i <= cs@.len(),
            rest == cs@.skip(from as int),
            end == |c: char| authority_end(c),
            forall|j: int| 0 <= j < i - from ==> !end(#[trigger] rest[j]),
        decreases cs@.len() - i,
    {
        assert(rest[i - from] == cs@[i as int]);
        i += 1;
    }
    proof {
        if i < cs@.len() {
            assert(rest[i - from] == cs@[i as int]);
        }
        crate::text::lemma_find_char(rest, end, i - from);
    }
    i
}

/// Where what stands behind the userinfo begins in the authority `from..to`.
fn userinfo_stop(cs: &Vec<char>, from: usize, to: usize) -> (r: usize)
    requires
        from <= to <= cs@.len(),
    ensures
        from <= r <= to,
        behind_userinfo(cs@.subrange(from as int, to as int)) == cs@.subrange(r as int, to as int),
{
    let ghost authority = cs@.subrange(from as int, to as int);
    let mut start: usize = to;
    while start > from && cs[start - 1] != '@'
        invariant
            from <= start <= to <= cs@.len(),
            authority == cs@.subrange(from as int, to as int),
            forall|j: int| start - from <= j < authority.len() ==> #[trigger] authority[j] != '@',
        decreases start - from,
    {
        assert(authority[start - from - 1] == cs@[start - 1]);
        start -= 1;
    }
    proof {
        if start > from {
            assert(authority[start - from - 1] == cs@[start - 1]);
        }
        lemma_behind_userinfo(authority, start - from);
        assert(authority.skip(start - from) =~= cs@.subrange(start as int, to as int));
    }
    start
}

/// Where the host ends that begins at `from`, before `to`.
fn host_stop(cs: &Vec<char>, from: usize, to: usize) -> (r: usize)
    requires
        from <= to <= cs@.len(),
    ensures
        from <= r <= to,
        without_port(cs@.subrange(from as int, to as int)) == cs@.subrange(from as int, r as int),
{
    let ghost s = cs@.subrange(from as int, to as int);
    let bracket = from < to && cs[from] == '[';
    let mark: char = if bracket {
        ']'
    } else {
        ':'
    };
    let ghost end = |c: char| c == mark;
    let mut i: usize = from;
    while i < to && cs[i] != mark
        invariant
            from <= i <= to <= cs@.len(),
            s == cs@.subrange(from as int, to as int),
            end == |c: char| c == mark,
            forall|j: int| 0 <= j < i - from ==> !end(#[trigger] s[j]),
        decreases to - i,
    {
        assert(s[i - from] == cs@[i as int]);
        i += 1;
    }
    proof {
        if i < to {
            assert(s[i - from] == cs@[i as int]);
        }
        crate::text::lemma_find_char(s, end, i - from);
        assert(bracket == (s.len() > 0 && s[0] == '['));
        assert(s.take(i - from) =~= cs@.subrange(from as int, i as int));
        if i < to {
            assert(s.take(i - from + 1) =~= cs@.subrange(from as int, i + 1));
            assert(i + 1 < to ==> s[i - from + 1] == cs@[i + 1]);
        }
    }
    if !bracket {
        i
    } else if i < to && (i + 1 == to || cs[i + 1] == ':') {
        i + 1
    } else {
        to
    }
}

/// Whether the part of a URL from `from` on has a loopback host.
fn is_loopback_rest(cs: &Vec<char>, from: usize) -> (r: bool)
    requires
        from <= cs@.len(),
    ensures
        r == loopback_rest(cs@.skip(from as int)),
{
    let end = authority_stop(cs, from);
    let start = userinfo_stop(cs, from, end);
    let stop = host_stop(cs, start, end);
    assert(cs@.skip(from as int).take(end - from) =~= cs@.subrange(from as int, end as int));
    let host = string_of(cs, start, stop);
    same_text(host.as_str(), "localhost") || same_text(host.as_str(), "127.0.0.1") || same_text(
        host.as_str(),
        "[::1]",
    )
}

/// Whether a base URL may be called.
pub fn is_allowed_endpoint(url: &str) -> (r: bool)
    ensures
        r == allowed_endpoint(url@),
{
    let cs = chars_of(url);
    let https = chars_of("https://");
    let http = chars_of("http://");
    if has_at(&cs, &https, 0) {
        return cs.len() > https.len();
    }
    if has_at(&cs, &http, 0) {
        return is_loopback_rest(&cs, http.len());
    }
    false
}

/// Whether the host of a base URL is loopback.
pub fn is_loopback_url(url: &str) -> (r: bool)
    ensures
        r == loopback_url(url@),
{
    let cs = chars_of(url);
    let https = chars_of("https://");
    let http = chars_of("http://");
    if has_at(&cs, &https, 0) {
        return is_loopback_rest(&cs, https.len());
    }
    if has_at(&cs, &http, 0) {
        return is_loopback_rest(&cs, http.len());
    }
    false
}

/// A character of an index name.
pub open spec fn index_char(c: char) -> bool {
    'a' <= c <= 'z' || '0' <= c <= '9' || c == '.' || c == '-' || c == '_' || c == '+'
}

/// A non-empty run of index characters that does not begin with `-`, `_` or `+`.
pub open spec fn index_core(s: Seq<char>) -> bool {
    &&& s.len() > 0
    &&& s[0] != '-' && s[0] != '_' && s[0] != '+'
    &&& forall|i: int| 0 <= i < s.len() ==> index_char(#[trigger] s[i])
}

/// An entry without the star at its end, where one is allowed.
pub open spec fn stem(s: Seq<char>, allow_wildcard: bool) -> Seq<char> {
    if allow_wildcard && s.last() == '*' {
        s.drop_last()
    } else {
        s
    }
}

/// An index name that is safe as a segment of a path, or, where a wildcard is
/// allowed, one with a star behind it.
pub open spec fn safe_token(s: Seq<char>, allow_wildcard: bool) -> bool {
    &&& 0 < s.len() <= 255
    &&& s != seq!['.']
    &&& s != seq!['.', '.']
    &&& index_core(stem(s, allow_wildcard))
}

/// An index name that is safe as a segment of a path.
pub open spec fn safe_index_token(s: Seq<char>) -> bool {
    safe_token(s, false)
}

/// Whether a text is a safe index name, or, where allowed, one with a star behind it.
pub fn is_safe_index_token_inner(s: &str, allow_wildcard: bool) -> (r: bool)
    ensures
        r == safe_token(s@, allow_wildcard),
{
    let cs = chars_of(s);
    let n = cs.len();
    if n == 0 || n > 255 {
        return false;
    }
    if n == 1 && cs[0] == '.' {
        assert(s@ =~= seq!['.']);
        return false;
    }
    if n == 2 && cs[0] == '.' && cs[1] == '.' {
        assert(s@ =~= seq!['.', '.']);
        return false;
    }
    let end: usize = if allow_wildcard && cs[n - 1] == '*' {
        n - 1
    } else {
        n
    };
    let ghost core = stem(s@, allow_wildcard);
    assert(core =~= s@.take(end as int));
    if end == 0 {
        return false;
    }
    let first = cs[0];
    assert(core[0] == first);
    if first == '-' || first == '_' || first == '+' {
        return false;
    }
    let mut i: usize = 0;
    while i < end
        invariant
            cs@ == s@,
            end <= cs@.len(),
            core == stem(s@, allow_wildcard),
            core == s@.take(end as int),
            i <= end,
            forall|j: int| 0 <= j < i ==> index_char(#[trigger] core[j]),
        decreases end - i,
    {
        let c = cs[i];
        assert(core[i as int] == c);
        let ok = ('a' <= c && c <= 'z') || ('0' <= c && c <= '9') || c == '.' || c == '-' || c
            == '_' || c == '+';
        if !ok {
            assert(!index_char(core[i as int]));
            return false;
        }
        i += 1;
    }
    true
}

/// Whether a text is a safe index name. No wildcard is one.
pub fn is_safe_index_token(s: &str) -> (r: bool)
    ensures
        r == safe_index_token(s@),
{
    is_safe_index_token_inner(s, false)
}

/// Whether a text is a valid entry of an allowlist.
pub fn is_safe_allowlist_token(s: &str) -> (r: bool)
    ensures
        r == safe_token(s@, true),
{
    is_safe_index_token_inner(s, true)
}

/// Whether an entry of an allowlist covers an index: as a prefix where it ends in
/// a star, else as it stands.
pub open spec fn entry_covers(entry: Seq<char>, index: Seq<char>) -> bool {
    if entry.len() > 0 && entry.last() == '*' {
        crate::text::starts_with(index, entry.drop_last())
    } else {
        entry == index
    }
}

/// Whether some entry of an allowlist covers an index.
pub open spec fn list_covers(allowlist: Seq<Seq<char>>, index: Seq<char>) -> bool {
    exists|i: int| 0 <= i < allowlist.len() && entry_covers(#[trigger] allowlist[i], index)
}

/// Whether one entry covers an index.
fn covers(entry: &str, index: &str) -> (r: bool)
    ensures
        r == entry_covers(entry@, index@),
{
    let mut cs = chars_of(entry);
    let n = cs.len();
    if n > 0 && cs[n - 1] == '*' {
        cs.truncate(n - 1);
        assert(cs@ =~= entry@.drop_last());
        has_at(&chars_of(index), &cs, 0)
    } else {
        same_text(entry, index)
    }
}

/// Whether some entry of an allowlist covers an index.
pub fn allowlist_covers(allowlist: &[String], index: &str) -> (r: bool)
    ensures
        r == list_covers(crate::text::strings(allowlist@), index@),
{
    let ghost all = crate::text::strings(allowlist@);
    let mut i: usize = 0;
    while i < allowlist.len()
        invariant
            all == crate::text::strings(allowlist@),
            i <= allowlist@.len(),
            forall|j: int| 0 <= j < i ==> !entry_covers(#[trigger] all[j], index@),
        decreases allowlist@.len() - i,
    {
        assert(all[i as int] == allowlist@[i as int]@);
        if covers(allowlist[i].as_str(), index) {
            return true;
        }
        i += 1;
    }
    false
}

impl KnnConfig {
    /// The filter is a valid value.
    pub open spec fn wf(self) -> bool {
        &&& crate::json::opt_value(self.filter) matches Some(v) ==> v.wf()
        &&& self.query_vector matches Some(v) ==> forall|i: int|
            0 <= i < v@.len() ==> ((#[trigger] v@[i]) matches VectorElement::Finite(n)
                ==> crate::json::number_kind(n) is Float)
    }
}

impl ListQueryConfig {
    /// The query is a valid value.
    pub open spec fn wf(self) -> bool {
        crate::json::opt_value(self.query) matches Some(v) ==> v.wf()
    }
}

impl EsCompletionConfig {
    /// The filter is a valid value.
    pub open spec fn wf(self) -> bool {
        crate::json::opt_value(self.filter) matches Some(v) ==> v.wf()
    }
}

impl ElasticsearchBackendSpec {
    /// Every JSON value in the configuration is a valid one, and the completions stand in
    /// ascending order of their names, each name once.
    pub open spec fn wf(self) -> bool {
        &&& self.list_query matches Some(l) ==> l.wf()
        &&& forall|i: int|
            0 <= i < self.variable_completions@.len() ==> (
            #[trigger] self.variable_completions@[i]).1.wf()
        &&& forall|i: int, j: int|
            0 <= i < j < self.variable_completions@.len() ==> crate::json::key_before(
                (#[trigger] self.variable_completions@[i]).0@,
                (#[trigger] self.variable_completions@[j]).0@,
            )
        &&& self.knn matches Some(k) ==> k.wf()
    }

    /// A configuration of what has no default, and every default.
    pub fn minimal(urls: Vec<String>, operation: EsOperation) -> (r: Self)
        ensures
            r.urls == urls,
            r.operation == operation,
            r.default_index is None,
            r.index_allowlist@.len() == 0,
            !r.allow_any_index,
            !r.allow_writes,
            !r.allow_scripting,
            r.auth is Anonymous,
            r.tls.ca_cert_pem is None,
            !r.tls.insecure_skip_verify,
            r.connect_timeout_ms == 5_000,
            r.operation_timeout_ms == 30_000,
            r.max_response_bytes == 4 * 1024 * 1024,
            r.max_request_bytes == 4 * 1024 * 1024,
            r.max_size == 1_000,
            r.max_from == 10_000,
            !r.allow_private_backends,
            r.surface is Tool,
            r.uri is None,
            r.list_query is None,
            r.variable_completions@.len() == 0,
            r.knn is None,
            r.wf(),
    {
        ElasticsearchBackendSpec {
            urls,
            operation,
            default_index: None,
            index_allowlist: Vec::new(),
            allow_any_index: false,
            allow_writes: false,
            allow_scripting: false,
            auth: EsAuth::default(),
            tls: EsTlsConfig::default(),
            connect_timeout_ms: default_connect_timeout_ms(),
            operation_timeout_ms: default_operation_timeout_ms(),
            max_response_bytes: default_max_response_bytes(),
            max_request_bytes: default_max_request_bytes(),
            max_size: default_max_size(),
            max_from: default_max_from(),
            allow_private_backends: false,
            surface: Surface::default(),
            uri: None,
            list_query: None,
            variable_completions: Vec::new(),
            knn: None,
        }
    }

    /// Whether a call may reach an index by its name.
    pub open spec fn reachable(self, index: Seq<char>) -> bool {
        self.allow_any_index || list_covers(
            crate::text::strings(self.index_allowlist@),
            index,
        )
    }

    /// The index of a call: the one it names, else the default one, if it is a safe
    /// name and reachable.
    pub open spec fn resolved_index(self, arg: Option<Seq<char>>) -> Result<Seq<char>, Seq<char>> {
        let index = match (arg, crate::text::opt_string(self.default_index)) {
            (Some(i), _) => Some(i),
            (None, d) => d,
        };
        match index {
            None => Err(
                "missing required `index` argument (no default_index configured)"@,
            ),
            Some(i) => if !safe_index_token(i) {
                Err("index `"@ + i + "` is not a valid index name"@)
            } else if !self.reachable(i) {
                Err("index `"@ + i + "` is not in the configured allowlist"@)
            } else {
                Ok(i)
            },
        }
    }

    /// Resolves the index of a call. The error is the message for the caller.
    pub fn resolve_index(&self, arg_index: Option<&str>) -> (r: Result<String, String>)
        ensures
            crate::text::text_result(r) == self.resolved_index(crate::text::opt_str(arg_index)),
    {
        let index: String = match arg_index {
            Some(i) => i.to_owned(),
            None => match &self.default_index {
                Some(d) => d.clone(),
                None => {
                    return Err(
                        "missing required `index` argument (no default_index configured)".to_owned(),
                    );
                },
            },
        };
        if !is_safe_index_token(index.as_str()) {
            return Err(
                "index `".to_owned().concat(index.as_str()).concat("` is not a valid index name"),
            );
        }
        if !self.allow_any_index && !allowlist_covers(
            self.index_allowlist.as_slice(),
            index.as_str(),
        ) {
            return Err(
                "index `".to_owned().concat(index.as_str()).concat(
                    "` is not in the configured allowlist",
                ),
            );
        }
        Ok(index)
    }

    /// The base URLs without surrounding white space and trailing slashes.
    pub fn trimmed_urls(&self) -> (r: Vec<String>)
        ensures
            r@.len() == self.urls@.len(),
            forall|i: int|
                0 <= i < r@.len() ==> (#[trigger] r@[i])@ == base_url(self.urls@[i]@),
    {
        let mut out: Vec<String> = Vec::new();
        let mut i: usize = 0;
        while i < self.urls.len()
            invariant
                i <= self.urls@.len(),
                out@.len() == i,
                forall|j: int|
                    0 <= j < i ==> (#[trigger] out@[j])@ == base_url(self.urls@[j]@),
            decreases self.urls@.len() - i,
        {
            out.push(without_slashes(self.urls[i].as_str().trim()));
            i += 1;
        }
        out
    }
}

/// `s` without the slashes at its end.
pub open spec fn unslashed(s: Seq<char>) -> Seq<char>
    decreases s.len(),
{
    if s.len() > 0 && s.last() == '/' {
        unslashed(s.drop_last())
    } else {
        s
    }
}

/// A base URL as requests are built on it.
pub open spec fn base_url(url: Seq<char>) -> Seq<char> {
    unslashed(crate::text::trimmed(url))
}

/// A text without the slashes at its end.
fn without_slashes(s: &str) -> (r: String)
    ensures
        r@ == unslashed(s@),
{
    let cs = chars_of(s);
    let mut n: usize = cs.len();
    assert(cs@.take(n as int) =~= cs@);
    while n > 0 && cs[n - 1] == '/'
        invariant
            cs@ == s@,
            n <= cs@.len(),
            unslashed(s@) == unslashed(s@.take(n as int)),
        decreases n,
    {
        assert(s@.take(n as int).drop_last() =~= s@.take(n - 1));
        n -= 1;
    }
    assert(s@.take(n as int) =~= s@.subrange(0, n as int));
    string_of(&cs, 0, n)
}

/// A URL that may be called is one over https, or one whose host is this one.
pub proof fn law_clear_text_stays_on_this_host(url: Seq<char>)
    ensures
        allowed_endpoint(url) ==> crate::text::starts_with(url, "https://"@) || loopback_url(url),
{
}

/// A resolved index is a safe name and reachable; it is the named one, or else the
/// default one.
pub proof fn law_resolved_index_is_safe(spec: ElasticsearchBackendSpec, arg: Option<Seq<char>>)
    ensures
        spec.resolved_index(arg) matches Ok(i) ==> {
            &&& safe_index_token(i)
            &&& spec.reachable(i)
            &&& arg matches Some(a) ==> i == a
            &&& arg is None ==> crate::text::opt_string(spec.default_index) == Some(i)
        },
{
}

/// With an empty allowlist no index is reachable, unless every index is.
pub proof fn law_empty_allowlist_reaches_nothing(
    spec: ElasticsearchBackendSpec,
    arg: Option<Seq<char>>,
)
    requires
        spec.index_allowlist@.len() == 0,
        !spec.allow_any_index,
    ensures
        spec.resolved_index(arg) is Err,
{
}

/// A safe index name stays one segment of a path and one index: no separator, no
/// wildcard, no escape, no list, no reserved name.
pub proof fn law_safe_index_is_one_path_segment(s: Seq<char>)
    requires
        safe_index_token(s),
    ensures
        forall|i: int|
            0 <= i < s.len() ==> {
                let c = #[trigger] s[i];
                &&& c != '/' && c != '\\' && c != '?' && c != '#' && c != '%'
                &&& c != '*' && c != ',' && c != ':' && c != '"' && c != '<' && c != '>'
                &&& c != '|' && c != ' '
                &&& !('A' <= c <= 'Z')
            },
        s != "_all"@,
        s != "."@,
        s != ".."@,
{
    reveal_strlit("_all");
    reveal_strlit(".");
    reveal_strlit("..");
    assert(s[0] != '_');
    assert("."@ =~= seq!['.']);
    assert(".."@ =~= seq!['.', '.']);
}

/// The characters that may stand in an index name.
proof fn lemma_index_char(c: char)
    ensures
        index_char(c) <==> "abcdefghijklmnopqrstuvwxyz0123456789.-_+"@.contains(c),
{
    reveal_strlit("abcdefghijklmnopqrstuvwxyz0123456789.-_+");
    let all = "abcdefghijklmnopqrstuvwxyz0123456789.-_+"@;
    assert(all.len() == 40);
    if 'a' <= c <= 'z' {
        let i = c as int - 97;
        assert(i == 0 || i == 1 || i == 2 || i == 3 || i == 4 || i == 5 || i == 6 || i == 7 || i
            == 8 || i == 9 || i == 10 || i == 11 || i == 12 || i == 13 || i == 14 || i == 15 || i
            == 16 || i == 17 || i == 18 || i == 19 || i == 20 || i == 21 || i == 22 || i == 23 || i
            == 24 || i == 25);
        assert(all[i] == c);
    } else if '0' <= c <= '9' {
        let i = c as int - 48 + 26;
        assert(i == 26 || i == 27 || i == 28 || i == 29 || i == 30 || i == 31 || i == 32 || i == 33
            || i == 34 || i == 35);
        assert(all[i] == c);
    } else if c == '.' {
        assert(all[36] == c);
    } else if c == '-' {
        assert(all[37] == c);
    } else if c == '_' {
        assert(all[38] == c);
    } else if c == '+' {
        assert(all[39] == c);
    } else if all.contains(c) {
        let i = choose|i: int| 0 <= i < all.len() && all[i] == c;
        assert(i == 0 || i == 1 || i == 2 || i == 3 || i == 4 || i == 5 || i == 6 || i == 7 || i
            == 8 || i == 9 || i == 10 || i == 11 || i == 12 || i == 13 || i == 14 || i == 15 || i
            == 16 || i == 17 || i == 18 || i == 19 || i == 20 || i == 21 || i == 22 || i == 23 || i
            == 24 || i == 25 || i == 26 || i == 27 || i == 28 || i == 29 || i == 30 || i == 31 || i
            == 32 || i == 33 || i == 34 || i == 35 || i == 36 || i == 37 || i == 38 || i == 39);
        assert(false);
    }
}

/// A name that is made of the characters of an index name and begins with none of the
/// reserved ones.
pub open spec fn plain_name(s: Seq<char>) -> bool {
    &&& s.len() > 0
    &&& forall|i: int|
        0 <= i < s.len() ==> "abcdefghijklmnopqrstuvwxyz0123456789.-_+"@.contains(#[trigger] s[i])
    &&& s[0] != '-' && s[0] != '_' && s[0] != '+'
}

proof fn lemma_plain_name(s: Seq<char>)
    ensures
        index_core(s) <==> plain_name(s),
{
    assert forall|i: int| 0 <= i < s.len() implies index_char(#[trigger] s[i])
        == "abcdefghijklmnopqrstuvwxyz0123456789.-_+"@.contains(s[i]) by {
        lemma_index_char(s[i]);
    }
    if index_core(s) {
        assert forall|i: int| 0 <= i < s.len() implies "abcdefghijklmnopqrstuvwxyz0123456789.-_+"@.contains(
            #[trigger] s[i],
        ) by {
            assert(index_char(s[i]));
        }
    }
}

/// Which names are names of indices: plain ones of at most 255 characters that are not
/// one dot or two. An entry of an allowlist is such a name, or a plain name of at most
/// 254 characters with a star behind it.
pub proof fn law_names_of_indices(s: Seq<char>)
    ensures
        safe_index_token(s) <==> plain_name(s) && s.len() <= 255 && s != "."@ && s != ".."@,
        s.len() == 0 || s.last() != '*' ==> (safe_token(s, true) <==> safe_index_token(s)),
        safe_token(s + "*"@, true) <==> plain_name(s) && s.len() <= 254,
        !safe_index_token(s + "*"@),
{
    reveal_strlit(".");
    reveal_strlit("..");
    reveal_strlit("*");
    assert("."@ =~= seq!['.']);
    assert(".."@ =~= seq!['.', '.']);
    assert("*"@ =~= seq!['*']);
    lemma_plain_name(s);
    let starred = s + "*"@;
    assert(starred.drop_last() =~= s);
    assert(starred.last() == '*');
    assert(starred != seq!['.']) by {
        assert(starred[starred.len() - 1] == '*');
    }
    assert(starred != seq!['.', '.']) by {
        assert(starred[starred.len() - 1] == '*');
    }
    assert(!index_char(starred[starred.len() - 1]));
}

/// Which names are names of fields: letters, digits, `_` and `.`, from 1 to 256 of them.
pub proof fn law_names_of_fields(s: Seq<char>)
    ensures
        safe_field_token(s) <==> 1 <= s.len() <= 256 && forall|i: int|
            0 <= i < s.len() ==> {
                let c = #[trigger] s[i];
                'a' <= c <= 'z' || 'A' <= c <= 'Z' || '0' <= c <= '9' || c == '_' || c == '.'
            },
{
    if safe_field_token(s) {
        assert forall|i: int| 0 <= i < s.len() implies ({
            let c = #[trigger] s[i];
            'a' <= c <= 'z' || 'A' <= c <= 'Z' || '0' <= c <= '9' || c == '_' || c == '.'
        }) by {
            assert(alphanumeric(s[i]) || s[i] == '_' || s[i] == '.');
        }
    }
}

/// An entry of an allowlist without a star covers the index of its name alone, and one
/// with a star behind it every index that begins with what stands before the star.
pub proof fn law_entries_cover_names_and_prefixes(entry: Seq<char>, index: Seq<char>, tail: Seq<char>)
    ensures
        entry.len() == 0 || entry.last() != '*' ==> (entry_covers(entry, index) <==> entry
            == index),
        entry_covers(entry + "*"@, entry + tail),
        entry_covers(entry + "*"@, index) ==> exists|more: Seq<char>|
            index == #[trigger] (entry + more),
{
    reveal_strlit("*");
    assert("*"@ =~= seq!['*']);
    assert((entry + "*"@).drop_last() =~= entry);
    assert((entry + tail).subrange(0, entry.len() as int) =~= entry);
    if entry_covers(entry + "*"@, index) {
        assert(index =~= entry + index.skip(entry.len() as int));
    }
}

/// An index is reachable exactly where every index is, or where some entry of the
/// allowlist covers it.
pub proof fn law_allowlist_decides_what_is_reachable(
    spec: ElasticsearchBackendSpec,
    index: Seq<char>,
)
    ensures
        spec.reachable(index) <==> spec.allow_any_index || exists|i: int|
            0 <= i < spec.index_allowlist@.len() && entry_covers(
                (#[trigger] spec.index_allowlist@[i])@,
                index,
            ),
{
    let list = crate::text::strings(spec.index_allowlist@);
    if list_covers(list, index) {
        let i = choose|i: int| 0 <= i < list.len() && entry_covers(#[trigger] list[i], index);
        assert(entry_covers(spec.index_allowlist@[i]@, index));
    }
    if exists|i: int|
        0 <= i < spec.index_allowlist@.len() && entry_covers(
            (#[trigger] spec.index_allowlist@[i])@,
            index,
        ) {
        let i = choose|i: int|
            0 <= i < spec.index_allowlist@.len() && entry_covers(
                (#[trigger] spec.index_allowlist@[i])@,
                index,
            );
        assert(list[i] == spec.index_allowlist@[i]@);
    }
}

/// What a call that names an index comes to is settled by that name, and what a call
/// that names none comes to by the default index. Either is accepted exactly where it is
/// the name of an index and reachable, and the call is told which of the two it is not.
pub proof fn law_index_of_a_call(spec: ElasticsearchBackendSpec, index: Seq<char>)
    ensures
        ({
            let r = spec.resolved_index(Some(index));
            &&& r is Ok <==> safe_index_token(index) && spec.reachable(index)
            &&& r matches Ok(i) ==> i == index
            &&& !safe_index_token(index) ==> r == Err::<Seq<char>, Seq<char>>(
                "index `"@ + index + "` is not a valid index name"@,
            )
            &&& safe_index_token(index) && !spec.reachable(index) ==> r == Err::<
                Seq<char>,
                Seq<char>,
            >("index `"@ + index + "` is not in the configured allowlist"@)
        }),
        spec.default_index matches Some(d) ==> spec.resolved_index(None) == spec.resolved_index(
            Some(d@),
        ),
        spec.default_index is None ==> spec.resolved_index(None) == Err::<Seq<char>, Seq<char>>(
            "missing required `index` argument (no default_index configured)"@,
        ),
{
}

/// A character that ends the part of a URL in which its host stands.
pub open spec fn ends_host_part(c: char) -> bool {
    c == '/' || c == '\\' || c == '?' || c == '#'
}

/// The parts of a URL behind its scheme: a user with an `@` behind it or nothing, the
/// host, a port with a colon before it or nothing, and what follows. The host is a name
/// without a colon, or stands in brackets.
pub open spec fn parts_of_url(
    user: Seq<char>,
    host: Seq<char>,
    port: Seq<char>,
    tail: Seq<char>,
) -> bool {
    &&& user.len() > 0 ==> user.last() == '@'
    &&& port.len() > 0 ==> port[0] == ':'
    &&& tail.len() > 0 ==> ends_host_part(tail[0])
    &&& forall|i: int| 0 <= i < user.len() ==> !ends_host_part(#[trigger] user[i])
    &&& forall|i: int| 0 <= i < host.len() ==> !ends_host_part(#[trigger] host[i]) && host[i] != '@'
    &&& forall|i: int| 0 <= i < port.len() ==> !ends_host_part(#[trigger] port[i]) && port[i] != '@'
    &&& if host.len() > 0 && host[0] == '[' {
        &&& host.last() == ']'
        &&& forall|i: int| 0 <= i < host.len() - 1 ==> #[trigger] host[i] != ']'
    } else {
        forall|i: int| 0 <= i < host.len() ==> #[trigger] host[i] != ':'
    }
}

proof fn lemma_host_of(user: Seq<char>, host: Seq<char>, port: Seq<char>, tail: Seq<char>)
    requires
        parts_of_url(user, host, port, tail),
    ensures
        host_of(user + host + port + tail) == host,
{
    let authority = user + host + port;
    let rest = authority + tail;
    let end = |c: char| authority_end(c);
    assert(user + host + port + tail =~= rest);
    assert forall|j: int| 0 <= j < authority.len() implies !end(#[trigger] rest[j]) by {
        if j < user.len() {
            assert(rest[j] == user[j]);
            assert(!ends_host_part(user[j]));
        } else if j < user.len() + host.len() {
            assert(rest[j] == host[j - user.len()]);
            assert(!ends_host_part(host[j - user.len()]));
        } else {
            assert(rest[j] == port[j - user.len() - host.len()]);
            assert(!ends_host_part(port[j - user.len() - host.len()]));
        }
    }
    if tail.len() > 0 {
        assert(rest[authority.len() as int] == tail[0]);
    }
    crate::text::lemma_find_char(rest, end, authority.len() as int);
    assert(rest.take(authority.len() as int) =~= authority);
    let at = user.len() as int;
    assert forall|j: int| at <= j < authority.len() implies #[trigger] authority[j] != '@' by {
        if j < user.len() + host.len() {
            assert(authority[j] == host[j - user.len()]);
        } else {
            assert(authority[j] == port[j - user.len() - host.len()]);
        }
    }
    lemma_behind_userinfo(authority, at);
    let s = host + port;
    assert(authority.skip(at) =~= s);
    let bracket = host.len() > 0 && host[0] == '[';
    assert(bracket == (s.len() > 0 && s[0] == '['));
    if bracket {
        let close = |c: char| c == ']';
        assert forall|j: int| 0 <= j < host.len() - 1 implies !close(#[trigger] s[j]) by {
            assert(s[j] == host[j]);
        }
        assert(s[host.len() - 1] == host.last());
        crate::text::lemma_find_char(s, close, host.len() - 1);
        assert(s.take(host.len() as int) =~= host);
        if port.len() > 0 {
            assert(s[host.len() as int] == port[0]);
        }
    } else {
        let colon = |c: char| c == ':';
        assert forall|j: int| 0 <= j < host.len() implies !colon(#[trigger] s[j]) by {
            assert(s[j] == host[j]);
        }
        if port.len() > 0 {
            assert(s[host.len() as int] == port[0]);
        }
        crate::text::lemma_find_char(s, colon, host.len() as int);
        assert(s.take(host.len() as int) =~= host);
    }
}

/// Which URLs may be called, and which have a loopback host, goes by the scheme and the
/// host alone. Neither a user, nor a port, nor what follows makes a difference. Over
/// https every host may be called, over http those of this host alone, and by no other
/// scheme any.
pub proof fn law_urls_are_judged_by_scheme_and_host(
    user: Seq<char>,
    host: Seq<char>,
    port: Seq<char>,
    tail: Seq<char>,
    other: Seq<char>,
)
    requires
        parts_of_url(user, host, port, tail),
    ensures
        ({
            let rest = user + host + port + tail;
            let here = host == "localhost"@ || host == "127.0.0.1"@ || host == "[::1]"@;
            &&& loopback_url("http://"@ + rest) <==> here
            &&& loopback_url("https://"@ + rest) <==> here
            &&& allowed_endpoint("http://"@ + rest) <==> here
            &&& allowed_endpoint("https://"@ + rest) <==> rest.len() > 0
        }),
        !crate::text::starts_with(other, "https://"@) && !crate::text::starts_with(
            other,
            "http://"@,
        ) ==> !allowed_endpoint(other) && !loopback_url(other),
{
    lemma_host_of(user, host, port, tail);
    reveal_strlit("http://");
    reveal_strlit("https://");
    let rest = user + host + port + tail;
    let clear = "http://"@ + rest;
    let secure = "https://"@ + rest;
    assert(clear.subrange(0, 7) =~= "http://"@);
    assert(secure.subrange(0, 8) =~= "https://"@);
    assert(clear.skip(7) =~= rest);
    assert(secure.skip(8) =~= rest);
    assert("http://"@[4] == ':' && "https://"@[4] == 's');
    assert(!crate::text::starts_with(clear, "https://"@)) by {
        if crate::text::starts_with(clear, "https://"@) {
            assert(clear.subrange(0, 8)[4] == clear[4]);
            assert(clear[4] == "http://"@[4]);
        }
    }
}

/// A base URL is the configured one without white space round it and without slashes at
/// its end.
pub proof fn law_base_url_has_no_slash_at_its_end(url: Seq<char>)
    ensures
        base_url(url).len() == 0 || base_url(url).last() != '/',
        base_url(url).len() <= crate::text::trimmed(url).len(),
        base_url(url) == crate::text::trimmed(url).take(base_url(url).len() as int),
        forall|i: int|
            base_url(url).len() <= i < crate::text::trimmed(url).len()
                ==> #[trigger] crate::text::trimmed(url)[i] == '/',
{
    lemma_unslashed(crate::text::trimmed(url));
}

proof fn lemma_unslashed(s: Seq<char>)
    ensures
        unslashed(s).len() == 0 || unslashed(s).last() != '/',
        unslashed(s).len() <= s.len(),
        unslashed(s) == s.take(unslashed(s).len() as int),
        forall|i: int| unslashed(s).len() <= i < s.len() ==> #[trigger] s[i] == '/',
    decreases s.len(),
{
    if s.len() > 0 && s.last() == '/' {
        let rest = s.drop_last();
        lemma_unslashed(rest);
        let n = unslashed(s).len() as int;
        assert(rest.take(n) =~= s.take(n));
        assert forall|i: int| n <= i < s.len() implies #[trigger] s[i] == '/' by {
            if i < rest.len() {
                assert(rest[i] == s[i]);
            }
        }
    } else {
        assert(s.take(s.len() as int) =~= s);
    }
}

/// The operations that change an index are the writes of one document, its deletion and
/// the writes of several.
pub proof fn law_operations_that_write(op: EsOperation)
    ensures
        op.writes() <==> (op == EsOperation::Index || op == EsOperation::Delete || op
            == EsOperation::Bulk),
{
}

/// The message of a fault that is about something names it, at its place.
pub proof fn law_messages_name_what_is_wrong(a: Seq<char>, b: Seq<char>)
    ensures
        SpecFault::Json(a).text() == "elasticsearch spec JSON: "@ + a,
        SpecFault::InvalidUrl(a).text() == "elasticsearch: url `"@ + a
            + "` must be https:// (or http://localhost for tests)"@,
        SpecFault::InvalidIndexToken(a).text() == "elasticsearch: index token `"@ + a
            + "` is invalid"@,
        SpecFault::DefaultIndexNotAllowed(a).text() == "elasticsearch: default_index `"@ + a
            + "` is not covered by index_allowlist"@,
        SpecFault::WritesNotAllowed(a).text() == "elasticsearch: operation `"@ + a
            + "` is a write; set allow_writes: true"@,
        SpecFault::InvalidListIndex(a).text() == "elasticsearch: list_query.index — "@ + a,
        SpecFault::InvalidCompletionField(a, b).text() == "elasticsearch: variable_completions."@
            + a + ".field `"@ + b + "` is not a safe field token"@,
        SpecFault::InvalidCompletionIndex(a, b).text() == "elasticsearch: variable_completions."@
            + a + ".index — "@ + b,
{
}

} // verus!
