//! Watching an index by polling it.
//!
//! The newest document by a field that only grows is searched for at intervals.
//! Its value in that field is the cursor, and a new cursor is a change.

use vstd::prelude::*;
use vstd::string::StringExecFns;

use crate::call::{write_call, CallPlan, EsRestCall, Method, Payload};
use crate::config::{ElasticsearchBackendSpec, EsAuth, EsOperation, EsTlsConfig, SpecFault};
use crate::json::{clone_opt, Json, JsonView};
use crate::response::{dot_path, search_hits, EsResult, ResultView};
use crate::text::{decimal_text, is_blank};

verus! {

/// The plugin that the watch belongs to.
pub const PLUGIN_ID: &'static str = "dev.mcpg.backend.elasticsearch";

/// The kind of the watch.
pub const WATCH_KIND: &'static str = "elasticsearch_poll";

/// The interval in milliseconds of a watch that does not say.
pub fn default_interval_ms() -> (r: u64)
    ensures
        r == 60_000,
{
    60_000
}

/// The timeout in milliseconds of a watch that does not say.
pub fn default_timeout_ms() -> (r: u64)
    ensures
        r == 10_000,
{
    10_000
}

/// The configuration of a watch. It has a connection of its own.
pub struct WatchSpec {
    /// Base URLs, as of a binding.
    pub urls: Vec<String>,
    pub auth: EsAuth,
    pub tls: EsTlsConfig,
    /// The index to watch.
    pub index: String,
    /// The field that only grows.
    pub cursor_field: String,
    /// A query that the documents must match, or one that matches everything.
    pub query: Option<Json>,
    pub allow_private_backends: bool,
    pub interval_ms: u64,
    pub timeout_ms: u64,
}

impl WatchSpec {
    /// The query is a valid value.
    pub open spec fn wf(self) -> bool {
        crate::json::opt_value(self.query) matches Some(v) ==> v.wf()
    }

    /// A watch of what has no default, and every default.
    pub fn minimal(urls: Vec<String>, index: String, cursor_field: String) -> (r: Self)
        ensures
            r.urls == urls,
            r.auth is Anonymous,
            r.tls.ca_cert_pem is None,
            !r.tls.insecure_skip_verify,
            r.index == index,
            r.cursor_field == cursor_field,
            r.query is None,
            !r.allow_private_backends,
            r.interval_ms == 60_000,
            r.timeout_ms == 10_000,
            r.wf(),
    {
        WatchSpec {
            urls,
            auth: EsAuth::default(),
            tls: EsTlsConfig::default(),
            index,
            cursor_field,
            query: None,
            allow_private_backends: false,
            interval_ms: default_interval_ms(),
            timeout_ms: default_timeout_ms(),
        }
    }
}

/// Why there is no watch.
#[derive(Debug, Clone, PartialEq, Eq)]
pub enum WatchError {
    InvalidSpec { message: String },
    Subscribe { message: String },
}

/// What a `WatchError` says.
pub enum WatchFault {
    InvalidSpec { message: Seq<char> },
    Subscribe { message: Seq<char> },
}

impl View for WatchError {
    type V = WatchFault;

    open spec fn view(&self) -> WatchFault {
        match self {
            WatchError::InvalidSpec { message } => WatchFault::InvalidSpec { message: message@ },
            WatchError::Subscribe { message } => WatchFault::Subscribe { message: message@ },
        }
    }
}

/// A watch that is ready to start.
pub struct WatchPlan {
    /// The connection, as a configuration of a search of the watched index alone.
    pub spec: ElasticsearchBackendSpec,
    /// The base URLs, trimmed.
    pub urls: Vec<String>,
    /// The search of each poll.
    pub call: EsRestCall,
    pub cursor_field: String,
    pub interval_ms: u64,
}

/// The configuration that stands behind a watch.
pub open spec fn stands_behind(s: ElasticsearchBackendSpec, w: WatchSpec) -> bool {
    let timeout = if w.timeout_ms == 0 {
        1
    } else {
        w.timeout_ms
    };
    &&& s.urls == w.urls
    &&& s.operation is Search
    &&& crate::text::opt_string(s.default_index) == Some(w.index@)
    &&& crate::text::strings(s.index_allowlist@) == seq![w.index@]
    &&& !s.allow_any_index
    &&& !s.allow_writes
    &&& !s.allow_scripting
    &&& s.auth == w.auth
    &&& s.tls == w.tls
    &&& s.connect_timeout_ms == timeout
    &&& s.operation_timeout_ms == timeout
    &&& s.max_response_bytes == 4 * 1024 * 1024
    &&& s.max_request_bytes == 4 * 1024 * 1024
    &&& s.max_size == 1_000
    &&& s.max_from == 10_000
    &&& s.allow_private_backends == w.allow_private_backends
    &&& s.surface is Tool
    &&& s.uri is None
    &&& s.list_query is None
    &&& s.variable_completions@.len() == 0
    &&& s.knn is None
}

/// The first fault of the connection of a watch.
pub open spec fn connection_fault(w: WatchSpec) -> Option<SpecFault> {
    crate::validate::first_of(
        crate::validate::urls_fault(w.urls@),
        crate::validate::first_of(
            crate::validate::fault_if(
                !crate::config::safe_index_token(w.index@),
                SpecFault::InvalidIndexToken(w.index@),
            ),
            crate::validate::first_of(
                crate::validate::certificate_fault(w.tls, w.urls@),
                crate::validate::secret_fault(w.auth),
            ),
        ),
    )
}

/// A name without a star that covers itself.
proof fn lemma_covers_itself(allowlist: Seq<Seq<char>>, index: Seq<char>)
    requires
        allowlist == seq![index],
        crate::config::safe_index_token(index),
    ensures
        crate::config::list_covers(allowlist, index),
        crate::config::safe_token(index, true),
{
    assert(crate::config::index_char(index[index.len() - 1]));
    assert(allowlist[0] == index);
    assert(crate::config::entry_covers(allowlist[0], index));
}

/// The faults of the configuration behind a watch are those of its connection.
proof fn lemma_connection_fault(s: ElasticsearchBackendSpec, w: WatchSpec)
    requires
        stands_behind(s, w),
    ensures
        s.first_fault() == connection_fault(w),
{
    let bad = |i: int| !crate::config::safe_token(s.index_allowlist@[i]@, true);
    let faulty = |i: int| s.completion_fault(i) is Some;
    assert(crate::text::strings(s.index_allowlist@).len() == 1);
    assert(s.index_allowlist@[0]@ == crate::text::strings(s.index_allowlist@)[0]);
    reveal_with_fuel(crate::text::first_from, 2);
    assert(crate::text::first_from(0, 1, bad) == if bad(0) {
        Some(0int)
    } else {
        None
    });
    assert(crate::text::first_from(0, 0, faulty) is None);
    if crate::config::safe_index_token(w.index@) {
        lemma_covers_itself(crate::text::strings(s.index_allowlist@), w.index@);
    }
}

/// Makes the configuration behind a watch.
fn spec_behind(
    urls: Vec<String>,
    auth: EsAuth,
    tls: EsTlsConfig,
    index: &str,
    allow_private_backends: bool,
    timeout_ms: u64,
) -> (r: ElasticsearchBackendSpec)
    ensures
        r.wf(),
        forall|w: WatchSpec|
            w.urls == urls && w.auth == auth && w.tls == tls && w.index@ == index@
                && w.allow_private_backends == allow_private_backends && w.timeout_ms
                == timeout_ms ==> #[trigger] stands_behind(r, w),
{
    let timeout: u64 = if timeout_ms == 0 {
        1
    } else {
        timeout_ms
    };
    let mut spec = ElasticsearchBackendSpec::minimal(urls, EsOperation::Search);
    let mut allowlist: Vec<String> = Vec::new();
    allowlist.push(index.to_owned());
    assert(crate::text::strings(allowlist@) =~= seq![index@]);
    spec.index_allowlist = allowlist;
    spec.default_index = Some(index.to_owned());
    spec.auth = auth;
    spec.tls = tls;
    spec.allow_private_backends = allow_private_backends;
    spec.operation_timeout_ms = timeout;
    spec.connect_timeout_ms = timeout;
    spec
}

/// The search for the newest document: the query, sorted by the cursor field from the
/// top, one hit, and of it the cursor field.
pub open spec fn newest_body(query: Option<JsonView>, cursor_field: Seq<char>) -> JsonView {
    JsonView::object().with(
        "query"@,
        match query {
            Some(q) => q,
            None => crate::call::match_all(),
        },
    ).with("size"@, JsonView::number(1)).with(
        "sort"@,
        JsonView::list().item(
            JsonView::object().with(
                cursor_field,
                JsonView::object().with("order"@, JsonView::Text("desc"@)),
            ),
        ),
    ).with("_source"@, JsonView::list().item(JsonView::Text(cursor_field)))
}

/// Builds the search for the newest document.
fn build_newest(query: Option<Json>, cursor_field: &str) -> (r: Json)
    ensures
        r@ == newest_body(crate::json::opt_value(query), cursor_field@),
        (crate::json::opt_value(query) matches Some(q) ==> q.wf()) ==> r@.wf(),
{
    let query = match query {
        Some(q) => q,
        None => Json::object().with("match_all", Json::object()),
    };
    Json::object().with("query", query).with("size", Json::number(1)).with(
        "sort",
        Json::list().item(
            Json::object().with(cursor_field, Json::object().with("order", Json::text("desc"))),
        ),
    ).with("_source", Json::list().item(Json::text(cursor_field)))
}

/// Why a decoded watch cannot be started.
pub open spec fn watch_fault(decoded: Result<WatchSpec, String>) -> Option<Seq<char>> {
    match decoded {
        Err(m) => Some("invalid elasticsearch_poll watch spec: "@ + m@),
        Ok(w) => if crate::text::blank(w.index@) {
            Some("index must not be empty"@)
        } else if crate::text::blank(w.cursor_field@) {
            Some("cursor_field must not be empty"@)
        } else {
            match connection_fault(w) {
                Some(f) => Some(f.text()),
                None => None,
            }
        },
    }
}

/// Whether a plan is that of a watch.
pub open spec fn plans(p: WatchPlan, w: WatchSpec) -> bool {
    &&& stands_behind(p.spec, w)
    &&& p.spec.wf()
    &&& p.urls@.len() == w.urls@.len()
    &&& forall|i: int|
        0 <= i < p.urls@.len() ==> (#[trigger] p.urls@[i])@ == crate::config::base_url(w.urls@[i]@)
    &&& p.call@ == crate::call::written(
        crate::call::post_plan(
            w.index@,
            "/_search"@,
            newest_body(crate::json::opt_value(w.query), w.cursor_field@),
            EsOperation::Search,
        ),
    )
    &&& p.cursor_field@ == w.cursor_field@
    &&& p.interval_ms == w.interval_ms
}

/// Plans a watch: checks its configuration and builds the search of each poll.
pub fn plan_watch(decoded: Result<WatchSpec, String>) -> (r: Result<WatchPlan, WatchError>)
    requires
        decoded matches Ok(w) ==> w.wf(),
    ensures
        match watch_fault(decoded) {
            Some(m) => r matches Err(e) && e@ == (WatchFault::InvalidSpec { message: m }),
            None => r matches Ok(p) && plans(p, decoded->Ok_0),
        },
{
    let w = match decoded {
        Ok(w) => w,
        Err(m) => {
            return Err(
                WatchError::InvalidSpec {
                    message: "invalid elasticsearch_poll watch spec: ".to_owned().concat(
                        m.as_str(),
                    ),
                },
            );
        },
    };
    let ghost whole = w;
    if is_blank(w.index.as_str()) {
        return Err(WatchError::InvalidSpec { message: "index must not be empty".to_owned() });
    }
    if is_blank(w.cursor_field.as_str()) {
        return Err(
            WatchError::InvalidSpec { message: "cursor_field must not be empty".to_owned() },
        );
    }
    let spec = spec_behind(
        w.urls,
        w.auth,
        w.tls,
        w.index.as_str(),
        w.allow_private_backends,
        w.timeout_ms,
    );
    proof {
        assert(stands_behind(spec, whole));
        lemma_connection_fault(spec, whole);
    }
    if let Err(e) = spec.validate() {
        return Err(WatchError::InvalidSpec { message: e.message() });
    }
    let path = "/".to_owned().concat(w.index.as_str()).concat("/_search");
    let display_path = "/".to_owned().concat(w.index.as_str()).concat("/_search");
    let call = write_call(
        CallPlan {
            method: Method::Post,
            path,
            query: None,
            payload: Payload::Value(build_newest(w.query, w.cursor_field.as_str())),
            operation: EsOperation::Search,
            display_path,
        },
    );
    let urls = spec.trimmed_urls();
    Ok(WatchPlan { spec, urls, call, cursor_field: w.cursor_field, interval_ms: w.interval_ms })
}

/// The failure of a watch for which there is no client.
pub fn client_failure(error: &str) -> (r: WatchError)
    ensures
        r@ == (WatchFault::Subscribe {
            message: "elasticsearch_poll: client init: "@ + error@,
        }),
{
    WatchError::Subscribe {
        message: "elasticsearch_poll: client init: ".to_owned().concat(error),
    }
}

/// The failure of a watch that cannot be run.
pub fn runtime_failure(error: &str) -> (r: WatchError)
    ensures
        r@ == (WatchFault::Subscribe {
            message: "elasticsearch_poll: tokio runtime init failed: "@ + error@,
        }),
{
    WatchError::Subscribe {
        message: "elasticsearch_poll: tokio runtime init failed: ".to_owned().concat(error),
    }
}

/// A value as a cursor: a text as it is, anything else as JSON text. Null is none.
pub open spec fn scalar_text(v: JsonView) -> Option<Seq<char>> {
    match v {
        JsonView::Text(s) => Some(s),
        JsonView::Null => None,
        _ => Some(crate::wire::json_text(v)),
    }
}

/// A value as a cursor.
pub fn stringify_scalar(v: &Json) -> (r: Option<String>)
    requires
        v@.wf(),
    ensures
        crate::text::opt_string(r) == scalar_text(v@),
{
    match v {
        Json::Text(s) => Some(s.clone()),
        Json::Null => None,
        other => Some(other.encode()),
    }
}

/// The value that the newest hit was sorted by, or else its value in the cursor field.
pub open spec fn cursor_value(body: JsonView, cursor_field: Seq<char>) -> Option<JsonView> {
    let hits = crate::response::hits_of(body);
    if hits.len() == 0 {
        None
    } else {
        match hits[0].get_array("sort"@) {
            Some(sort) if sort.len() > 0 => Some(sort[0]),
            _ => match hits[0].get("_source"@) {
                Some(source) => crate::response::at_path(
                    source,
                    crate::text::segments(cursor_field),
                ),
                None => None,
            },
        }
    }
}

/// The cursor of a poll.
pub open spec fn cursor_of(body: JsonView, cursor_field: Seq<char>) -> Option<Seq<char>> {
    match cursor_value(body, cursor_field) {
        Some(v) => scalar_text(v),
        None => None,
    }
}

/// The path of a valid value leads to valid values.
proof fn lemma_path_wf(root: JsonView, path: Seq<Seq<char>>)
    requires
        root.wf(),
    ensures
        crate::response::at_path(root, path) matches Some(v) ==> v.wf(),
    decreases path.len(),
{
    if path.len() > 0 {
        crate::json::lemma_get_wf(root, path[0]);
        if let Some(v) = root.get(path[0]) {
            lemma_path_wf(v, path.drop_first());
        }
    }
}

/// The hits of a valid body are valid.
proof fn lemma_hits_wf(body: JsonView)
    requires
        body.wf(),
    ensures
        forall|i: int|
            0 <= i < crate::response::hits_of(body).len() ==> (#[trigger] crate::response::hits_of(
                body,
            )[i]).wf(),
{
    crate::json::lemma_get_wf(body, "hits"@);
    if let Some(h) = body.get("hits"@) {
        crate::json::lemma_get_wf(h, "hits"@);
    }
}

/// The value that the newest hit was sorted by, or else its value in the cursor field.
pub fn newest_value(body: &Json, cursor_field: &str) -> (r: Option<Json>)
    ensures
        crate::json::opt_value(r) == cursor_value(body@, cursor_field@),
{
    let hits = search_hits(body);
    assert(crate::json::values(hits@).len() == hits@.len());
    if hits.is_empty() {
        return None;
    }
    let top = &hits[0];
    assert(crate::json::values(hits@)[0] == top@);
    if let Some(sort) = top.get_array("sort") {
        assert(crate::json::values(sort@).len() == sort@.len());
        if !sort.is_empty() {
            assert(crate::json::values(sort@)[0] == sort@[0]@);
            return Some(sort[0].clone());
        }
    }
    match top.get("_source") {
        None => None,
        Some(source) => clone_opt(dot_path(source, cursor_field)),
    }
}

/// The newest value of a valid body is valid.
proof fn lemma_cursor_wf(body: JsonView, cursor_field: Seq<char>)
    requires
        body.wf(),
    ensures
        cursor_value(body, cursor_field) matches Some(v) ==> v.wf(),
{
    let hits = crate::response::hits_of(body);
    lemma_hits_wf(body);
    if hits.len() > 0 {
        assert(hits[0].wf());
        crate::json::lemma_get_wf(hits[0], "sort"@);
        crate::json::lemma_get_wf(hits[0], "_source"@);
        if let Some(source) = hits[0].get("_source"@) {
            lemma_path_wf(source, crate::text::segments(cursor_field));
        }
    }
}

/// The cursor of a poll: none where there is no hit, or no value in it.
pub fn cursor_from_hit(body: &Json, cursor_field: &str) -> (r: Option<String>)
    requires
        body@.wf(),
    ensures
        crate::text::opt_string(r) == cursor_of(body@, cursor_field@),
{
    proof {
        lemma_cursor_wf(body@, cursor_field@);
    }
    match newest_value(body, cursor_field) {
        Some(v) => stringify_scalar(&v),
        None => None,
    }
}

/// What a poll comes to: a cursor, none, or a failure.
pub open spec fn poll_of(outcome: Result<ResultView, Seq<char>>, cursor_field: Seq<char>) -> Result<
    Option<Seq<char>>,
    Seq<char>,
> {
    match outcome {
        Err(m) => Err(m),
        Ok(res) => if res.status >= 400 {
            Err(
                "elasticsearch _search returned status "@ + crate::text::decimal(res.status as nat),
            )
        } else {
            Ok(
                match res.json {
                    Some(body) => cursor_of(body, cursor_field),
                    None => None,
                },
            )
        },
    }
}

/// Says what a poll comes to, by what came of its search.
pub fn poll_outcome(outcome: Result<EsResult, String>, cursor_field: &str) -> (r: Result<
    Option<String>,
    String,
>)
    requires
        crate::transport::outcome(outcome) matches Ok(res) ==> res.wf(),
    ensures
        match r {
            Ok(c) => poll_of(crate::transport::outcome(outcome), cursor_field@) == Ok::<
                Option<Seq<char>>,
                Seq<char>,
            >(crate::text::opt_string(c)),
            Err(m) => poll_of(crate::transport::outcome(outcome), cursor_field@) == Err::<
                Option<Seq<char>>,
                Seq<char>,
            >(m@),
        },
{
    match outcome {
        Err(m) => Err(m),
        Ok(res) => {
            if res.status >= 400 {
                return Err(
                    "elasticsearch _search returned status ".to_owned().concat(
                        decimal_text(res.status as u128).as_str(),
                    ),
                );
            }
            match &res.json {
                Some(body) => Ok(cursor_from_hit(body, cursor_field)),
                None => Ok(None),
            }
        },
    }
}

/// A watch that can be started polls an index that is a safe name, which is the only
/// one that its connection reaches. It has a field to go by, and URLs that may be
/// called.
pub proof fn law_watch_stays_in_its_index(
    w: WatchSpec,
    s: ElasticsearchBackendSpec,
    arg: Option<Seq<char>>,
)
    requires
        watch_fault(Ok(w)) is None,
        stands_behind(s, w),
    ensures
        crate::config::safe_index_token(w.index@),
        s.first_fault() is None,
        s.resolved_index(arg) matches Ok(i) ==> i == w.index@,
        !crate::text::blank(w.cursor_field@),
        w.urls@.len() > 0,
        forall|i: int|
            0 <= i < w.urls@.len() ==> crate::config::allowed_endpoint(
                crate::text::trimmed((#[trigger] w.urls@[i])@),
            ),
{
    lemma_connection_fault(s, w);
    crate::validate::law_valid_endpoints_and_limits(s);
    if let Ok(i) = s.resolved_index(arg) {
        let list = crate::text::strings(s.index_allowlist@);
        let k = choose|k: int|
            0 <= k < list.len() && crate::config::entry_covers(#[trigger] list[k], i);
        assert(list[k] == w.index@);
        assert(crate::config::index_char(w.index@[w.index@.len() - 1]));
    }
}

/// No hit and a cursor of null are no signal.
pub proof fn law_no_hit_is_no_signal(body: JsonView, cursor_field: Seq<char>)
    ensures
        crate::response::hits_of(body).len() == 0 ==> cursor_of(body, cursor_field) is None,
        cursor_value(body, cursor_field) == Some(JsonView::Null) ==> cursor_of(
            body,
            cursor_field,
        ) is None,
{
}

/// The keys of the search of a poll differ.
proof fn lemma_poll_keys()
    ensures
        "query"@.len() == 5 && "size"@.len() == 4 && "sort"@.len() == 4 && "_source"@.len() == 7,
        "size"@[1] == 'i' && "sort"@[1] == 'o',
{
    reveal_strlit("query");
    reveal_strlit("size");
    reveal_strlit("sort");
    reveal_strlit("_source");
}

/// A poll asks for one hit, the first by the cursor field from the top, and of it for that
/// field alone. It asks the configured query, or one that matches everything, and nothing
/// else.
pub proof fn law_poll_asks_for_the_newest(
    query: Option<JsonView>,
    cursor_field: Seq<char>,
    key: Seq<char>,
)
    ensures
        ({
            let body = newest_body(query, cursor_field);
            &&& body is Object
            &&& query matches Some(q) ==> body.get("query"@) == Some(q)
            &&& query is None ==> body.get("query"@) == Some(
                JsonView::Object(seq![("match_all"@, JsonView::Object(Seq::empty()))]),
            )
            &&& body.get("size"@) == Some(JsonView::number(1))
            &&& body.get("sort"@) == Some(
                JsonView::Array(
                    seq![
                        JsonView::Object(
                            seq![
                                (
                                    cursor_field,
                                    JsonView::Object(seq![("order"@, JsonView::Text("desc"@))]),
                                ),
                            ],
                        ),
                    ],
                ),
            )
            &&& body.get("_source"@) == Some(JsonView::Array(seq![JsonView::Text(cursor_field)]))
            &&& body.get(key) is Some ==> key == "query"@ || key == "size"@ || key == "sort"@ || key
                == "_source"@
        }),
{
    broadcast use crate::json::lemma_get_with;

    lemma_poll_keys();
    let down = JsonView::Object(seq![("order"@, JsonView::Text("desc"@))]);
    assert(JsonView::object().with("order"@, JsonView::Text("desc"@)) == down);
    let by = JsonView::Object(seq![(cursor_field, down)]);
    assert(JsonView::object().with(cursor_field, down) == by);
    assert(Seq::<JsonView>::empty().push(by) =~= seq![by]);
    let text = JsonView::Text(cursor_field);
    assert(Seq::<JsonView>::empty().push(text) =~= seq![text]);
    assert(crate::call::match_all() == JsonView::Object(
        seq![("match_all"@, JsonView::Object(Seq::empty()))],
    ));
}

/// The connection of a watch is its own: its URLs, credentials, TLS settings and guard,
/// its timeout for both halves of a request, at least a millisecond, and its index as the
/// only one. It reads and runs no scripts.
pub proof fn law_connection_of_a_watch(s: ElasticsearchBackendSpec, w: WatchSpec)
    requires
        stands_behind(s, w),
    ensures
        s.urls == w.urls,
        s.auth == w.auth,
        s.tls == w.tls,
        s.allow_private_backends == w.allow_private_backends,
        s.operation == EsOperation::Search,
        s.default_index matches Some(d) && d@ == w.index@,
        s.index_allowlist@.len() == 1 && s.index_allowlist@[0]@ == w.index@,
        !s.allow_any_index,
        !s.allow_writes,
        !s.allow_scripting,
        w.timeout_ms > 0 ==> s.operation_timeout_ms == w.timeout_ms,
        w.timeout_ms == 0 ==> s.operation_timeout_ms == 1,
        s.connect_timeout_ms == s.operation_timeout_ms,
        s.max_response_bytes == 4194304,
        s.max_request_bytes == 4194304,
        s.max_size == 1000,
        s.max_from == 10000,
        s.surface is Tool,
        s.uri is None && s.list_query is None && s.knn is None,
        s.variable_completions@.len() == 0,
{
    let list = crate::text::strings(s.index_allowlist@);
    assert(list.len() == 1);
    assert(list[0] == s.index_allowlist@[0]@);
}

/// A planned watch posts the search of a poll to its index, at its interval, and goes by
/// its cursor field. It tries its URLs in their order.
pub proof fn law_plan_of_a_watch(p: WatchPlan, w: WatchSpec)
    requires
        plans(p, w),
    ensures
        stands_behind(p.spec, w),
        p.interval_ms == w.interval_ms,
        p.cursor_field@ == w.cursor_field@,
        p.urls@.len() == w.urls@.len(),
        forall|i: int|
            0 <= i < w.urls@.len() ==> (#[trigger] p.urls@[i])@ == crate::config::base_url(
                w.urls@[i]@,
            ),
        p.call@.method == Method::Post,
        p.call@.path == "/"@ + w.index@ + "/_search"@,
        p.call@.display_path == p.call@.path,
        p.call@.query is None,
        p.call@.content_type == "application/json"@,
        p.call@.operation == EsOperation::Search,
        p.call@.body == Some(
            vstd::utf8::encode_utf8(
                crate::wire::json_text(
                    newest_body(crate::json::opt_value(w.query), w.cursor_field@),
                ),
            ),
        ),
{
}

/// When a watch can be started, and what is said first where it cannot: it was decoded,
/// its index and its cursor field are not blank, its URLs may be called, its index is the
/// name of one, no foreign certificate goes unchecked, and its secret is not blank.
pub proof fn law_watch_that_can_be_started(w: WatchSpec, message: String)
    ensures
        watch_fault(Err(message)) == Some("invalid elasticsearch_poll watch spec: "@ + message@),
        crate::text::blank(w.index@) ==> watch_fault(Ok(w)) == Some("index must not be empty"@),
        !crate::text::blank(w.index@) && crate::text::blank(w.cursor_field@) ==> watch_fault(Ok(w))
            == Some("cursor_field must not be empty"@),
        !crate::text::blank(w.index@) && !crate::text::blank(w.cursor_field@) ==> match (
            crate::validate::urls_fault(w.urls@),
            crate::validate::certificate_fault(w.tls, w.urls@),
            crate::validate::secret_fault(w.auth),
        ) {
            (Some(f), _, _) => watch_fault(Ok(w)) == Some(f.text()),
            (None, tls, secret) => if !crate::config::safe_index_token(w.index@) {
                watch_fault(Ok(w)) == Some(
                    "elasticsearch: index token `"@ + w.index@ + "` is invalid"@,
                )
            } else {
                match (tls, secret) {
                    (Some(f), _) => watch_fault(Ok(w)) == Some(f.text()),
                    (None, Some(f)) => watch_fault(Ok(w)) == Some(f.text()),
                    (None, None) => watch_fault(Ok(w)) is None,
                }
            },
        },
{
}

/// The cursor of a poll is a value of the newest hit, the first one: the first of those
/// that it was sorted by, or else what stands in its source at the cursor field.
pub proof fn law_cursor_is_of_the_first_hit(body: JsonView, cursor_field: Seq<char>)
    ensures
        ({
            let hits = crate::response::hits_of(body);
            let value = cursor_value(body, cursor_field);
            &&& hits.len() == 0 ==> value is None
            &&& hits.len() > 0 ==> match hits[0].get("sort"@) {
                Some(JsonView::Array(sort)) if sort.len() > 0 => value == Some(sort[0]),
                _ => match hits[0].get("_source"@) {
                    Some(source) => value == crate::response::at_path(
                        source,
                        crate::text::segments(cursor_field),
                    ),
                    None => value is None,
                },
            }
        }),
{
}

/// A text is a cursor as it is, null is none, and any other value is one as JSON text.
pub proof fn law_values_as_cursors(v: JsonView, body: JsonView, cursor_field: Seq<char>)
    ensures
        v matches JsonView::Text(s) ==> scalar_text(v) == Some(s),
        v is Null ==> scalar_text(v) is None,
        !(v is Text) && !(v is Null) ==> scalar_text(v) == Some(crate::wire::json_text(v)),
        match cursor_value(body, cursor_field) {
            Some(value) => cursor_of(body, cursor_field) == scalar_text(value),
            None => cursor_of(body, cursor_field) is None,
        },
{
}

/// A poll fails where its search did, and where the status is 400 or above, which it then
/// names. Any other poll has the cursor of its JSON, or none without JSON.
pub proof fn law_polls_and_their_failures(
    res: ResultView,
    message: Seq<char>,
    cursor_field: Seq<char>,
)
    ensures
        poll_of(Err(message), cursor_field) == Err::<Option<Seq<char>>, Seq<char>>(message),
        res.status >= 400 ==> poll_of(Ok(res), cursor_field) == Err::<Option<Seq<char>>, Seq<char>>(
            "elasticsearch _search returned status "@ + crate::text::decimal(res.status as nat),
        ),
        res.status < 400 ==> match res.json {
            Some(body) => poll_of(Ok(res), cursor_field) == Ok::<Option<Seq<char>>, Seq<char>>(
                cursor_of(body, cursor_field),
            ),
            None => poll_of(Ok(res), cursor_field) == Ok::<Option<Seq<char>>, Seq<char>>(None),
        },
{
}

} // verus!
