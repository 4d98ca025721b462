//! The binding: its profiles, and what it does with each request.
//!
//! A request that goes to the server is handled in two halves. The first half
//! plans the call, or answers where none is needed. The second half takes what
//! came of the call and makes the answer.

use vstd::prelude::*;
use vstd::slice::slice_to_vec;
use vstd::string::StringExecFns;
use vstd::utf8::encode_utf8;

use crate::call::{build_call, build_completion_call, build_list_call, CallView, EsRestCall};
use crate::config::{ElasticsearchBackendSpec, EsCompletionConfig, ListQueryConfig};
use crate::json::{Json, JsonView};
use crate::observe::is_timeout;
use crate::response::{build_envelope, search_hits, EsResult, ResultView};
use crate::schema::{op_input_schema, result_envelope_schema};
use crate::surface::{
    hits_to_completion_values, hits_to_resource_page, prompt_messages_body, resolve_resource_uri,
    resource_contents_body, surface_truncated, PageView, ResourcePage, Surface,
};
use crate::text::{borrowed, decimal_text, parse_unsigned, same_text};

verus! {

/// Why a request came to nothing.
#[derive(Debug, Clone, PartialEq, Eq)]
pub enum BackendError {
    ProfileNotFound { backend_name: String },
    InvalidSpec { message: String },
    Timeout { timeout_ms: u64 },
    Transport { message: String },
}

/// What a `BackendError` says.
pub enum BackendFault {
    ProfileNotFound { backend_name: Seq<char> },
    InvalidSpec { message: Seq<char> },
    Timeout { timeout_ms: u64 },
    Transport { message: Seq<char> },
}

impl View for BackendError {
    type V = BackendFault;

    open spec fn view(&self) -> BackendFault {
        match self {
            BackendError::ProfileNotFound { backend_name } => BackendFault::ProfileNotFound {
                backend_name: backend_name@,
            },
            BackendError::InvalidSpec { message } => BackendFault::InvalidSpec { message: message@ },
            BackendError::Timeout { timeout_ms } => BackendFault::Timeout {
                timeout_ms: *timeout_ms,
            },
            BackendError::Transport { message } => BackendFault::Transport { message: message@ },
        }
    }
}

/// The answer to a request.
#[derive(Debug, Clone, PartialEq, Eq)]
pub struct BackendResponse {
    pub payload: Vec<u8>,
    /// Whether the response of the server was cut.
    pub truncated: bool,
}

/// What an answer says.
pub struct ResponseView {
    pub payload: Seq<u8>,
    pub truncated: bool,
}

impl View for BackendResponse {
    type V = ResponseView;

    open spec fn view(&self) -> ResponseView {
        ResponseView { payload: self.payload@, truncated: self.truncated }
    }
}

/// What a request comes to.
pub open spec fn response_result(r: Result<BackendResponse, BackendError>) -> Result<
    ResponseView,
    BackendFault,
> {
    match r {
        Ok(a) => Ok(a@),
        Err(e) => Err(e@),
    }
}

/// A result that is handed to the caller as an error of the tool.
pub open spec fn verbatim(message: Seq<char>) -> JsonView {
    JsonView::object().with(
        "__mcpg_verbatim_result"@,
        JsonView::object().with(
            "content"@,
            JsonView::list().item(
                JsonView::object().with("type"@, JsonView::Text("text"@)).with(
                    "text"@,
                    JsonView::Text(message),
                ),
            ),
        ).with("isError"@, JsonView::Bool(true)),
    )
}

/// Builds the result that is handed to the caller as an error of the tool.
pub fn verbatim_value(message: &str) -> (r: Json)
    ensures
        r@ == verbatim(message@),
        r@.wf(),
{
    Json::object().with(
        "__mcpg_verbatim_result",
        Json::object().with(
            "content",
            Json::list().item(
                Json::object().with("type", Json::text("text")).with("text", Json::text(message)),
            ),
        ).with("isError", Json::Bool(true)),
    )
}

/// The bytes of a value.
pub open spec fn value_bytes(v: JsonView) -> Seq<u8> {
    encode_utf8(crate::wire::json_text(v))
}

fn bytes_of(v: &Json) -> (r: Vec<u8>)
    requires
        v@.wf(),
    ensures
        r@ == value_bytes(v@),
{
    slice_to_vec(v.encode().as_str().as_bytes())
}

/// The bytes of an error of the tool.
pub fn verbatim_error(message: &str) -> (r: Vec<u8>)
    ensures
        r@ == value_bytes(verbatim(message@)),
{
    bytes_of(&verbatim_value(message))
}

/// The answer that reports an error of the tool.
pub open spec fn tool_error(message: Seq<char>) -> ResponseView {
    ResponseView { payload: value_bytes(verbatim(message)), truncated: false }
}

fn answer_error(message: &str) -> (r: BackendResponse)
    ensures
        r@ == tool_error(message@),
{
    BackendResponse { payload: verbatim_error(message), truncated: false }
}

/// A registered configuration.
#[derive(Clone)]
pub struct EsProfile {
    pub spec: ElasticsearchBackendSpec,
    /// The base URLs, trimmed.
    pub urls: Vec<String>,
    /// The references of the secrets that were resolved for it.
    pub secret_refs: Vec<String>,
}

/// The texts among some values.
pub open spec fn texts(items: Seq<JsonView>) -> Seq<Seq<char>>
    decreases items.len(),
{
    if items.len() == 0 {
        Seq::empty()
    } else {
        match items.last() {
            JsonView::Text(s) => texts(items.drop_last()).push(s),
            _ => texts(items.drop_last()),
        }
    }
}

/// The references of secrets that come with a configuration.
pub open spec fn secret_references(raw: JsonView) -> Seq<Seq<char>> {
    match raw.get_array("__mcpg_secret_refs"@) {
        Some(items) => texts(items),
        None => Seq::empty(),
    }
}

/// Reads the references of secrets that come with a configuration.
pub fn secret_refs_of(raw: &Json) -> (r: Vec<String>)
    ensures
        crate::text::strings(r@) == secret_references(raw@),
{
    let mut out: Vec<String> = Vec::new();
    assert(crate::text::strings(out@) =~= Seq::<Seq<char>>::empty());
    if let Some(items) = raw.get_array("__mcpg_secret_refs") {
        let ghost all = crate::json::values(items@);
        let mut i: usize = 0;
        while i < items.len()
            invariant
                i <= items@.len(),
                all == crate::json::values(items@),
                crate::text::strings(out@) == texts(all.take(i as int)),
            decreases items@.len() - i,
        {
            proof {
                assert(all.take(i + 1).drop_last() =~= all.take(i as int));
                assert(all.take(i + 1).last() == items@[i as int]@);
            }
            if let Json::Text(s) = &items[i] {
                let s = s.clone();
                proof {
                    crate::text::lemma_strings_push(out@, s);
                }
                out.push(s);
            }
            i += 1;
        }
        assert(all.take(i as int) =~= all);
    }
    out
}

/// What a profile is made of: the configuration as it is decoded, and the references
/// that come with it. A configuration with a fault makes none.
pub open spec fn profile_made(
    decoded: Result<ElasticsearchBackendSpec, String>,
    raw: JsonView,
    p: EsProfile,
) -> bool {
    &&& decoded == Ok::<ElasticsearchBackendSpec, String>(p.spec)
    &&& p.spec.first_fault() is None
    &&& p.urls@.len() == p.spec.urls@.len()
    &&& forall|i: int|
        0 <= i < p.urls@.len() ==> (#[trigger] p.urls@[i])@ == crate::config::base_url(
            p.spec.urls@[i]@,
        )
    &&& crate::text::strings(p.secret_refs@) == secret_references(raw)
}

/// Why a decoded configuration makes no profile.
pub open spec fn registration_fault(decoded: Result<ElasticsearchBackendSpec, String>) -> Option<
    crate::config::SpecFault,
> {
    match decoded {
        Err(m) => Some(crate::config::SpecFault::Json(m@)),
        Ok(s) => s.first_fault(),
    }
}

/// The first half of a registration: the profile of a decoded configuration.
pub fn plan_registration(decoded: Result<ElasticsearchBackendSpec, String>, raw: &Json) -> (r:
    Result<EsProfile, BackendError>)
    ensures
        match registration_fault(decoded) {
            Some(f) => r matches Err(e) && e@ == (BackendFault::InvalidSpec { message: f.text() }),
            None => r matches Ok(p) && profile_made(decoded, raw@, p),
        },
{
    match ElasticsearchBackendSpec::parse(decoded) {
        Err(e) => Err(BackendError::InvalidSpec { message: e.message() }),
        Ok(spec) => {
            let urls = spec.trimmed_urls();
            Ok(EsProfile { spec, urls, secret_refs: secret_refs_of(raw) })
        },
    }
}

/// The profile with a name, among profiles of which the first with a name counts.
pub open spec fn profile_in(entries: Seq<(String, EsProfile)>, name: Seq<char>) -> Option<EsProfile>
    decreases entries.len(),
{
    if entries.len() == 0 {
        None
    } else if entries[0].0@ == name {
        Some(entries[0].1)
    } else {
        profile_in(entries.drop_first(), name)
    }
}

proof fn lemma_profile_skip(entries: Seq<(String, EsProfile)>, name: Seq<char>, i: int)
    requires
        0 <= i <= entries.len(),
        forall|j: int| 0 <= j < i ==> (#[trigger] entries[j]).0@ != name,
    ensures
        profile_in(entries, name) == profile_in(entries.skip(i), name),
    decreases i,
{
    if i == 0 {
        assert(entries.skip(0) =~= entries);
    } else {
        assert(entries[0].0@ != name);
        lemma_profile_skip(entries.drop_first(), name, i - 1);
        assert(entries.drop_first().skip(i - 1) =~= entries.skip(i));
    }
}

/// Replacing the first entry with a name, or appending one where there is none.
proof fn lemma_profile_replace(
    entries: Seq<(String, EsProfile)>,
    i: int,
    entry: (String, EsProfile),
    other: Seq<char>,
)
    requires
        0 <= i <= entries.len(),
        forall|j: int| 0 <= j < i ==> (#[trigger] entries[j]).0@ != entry.0@,
        i < entries.len() ==> entries[i].0@ == entry.0@,
    ensures
        profile_in(
            if i < entries.len() {
                entries.update(i, entry)
            } else {
                entries.push(entry)
            },
            other,
        ) == if other == entry.0@ {
            Some(entry.1)
        } else {
            profile_in(entries, other)
        },
    decreases i,
{
    let out = if i < entries.len() {
        entries.update(i, entry)
    } else {
        entries.push(entry)
    };
    if i == 0 {
        if entries.len() == 0 {
            assert(out.drop_first() =~= entries);
        } else {
            assert(out.drop_first() =~= entries.drop_first());
        }
    } else {
        let rest = entries.drop_first();
        assert forall|j: int| 0 <= j < i - 1 implies (#[trigger] rest[j]).0@ != entry.0@ by {
            assert(rest[j] == entries[j + 1]);
        }
        lemma_profile_replace(rest, i - 1, entry, other);
        assert(entries[0].0@ != entry.0@);
        if i < entries.len() {
            assert(out.drop_first() =~= rest.update(i - 1, entry));
        } else {
            assert(out.drop_first() =~= rest.push(entry));
        }
    }
}

/// What the first half of a call comes to.
pub enum ExecuteStep {
    /// There is nothing to send: this is the answer.
    Answer(BackendResponse),
    /// The call to send, and the arguments that it was built of.
    Send { args: Json, call: EsRestCall },
}

/// What a step says.
pub enum StepView {
    Answer(ResponseView),
    Send { args: JsonView, call: CallView },
}

impl View for ExecuteStep {
    type V = StepView;

    open spec fn view(&self) -> StepView {
        match self {
            ExecuteStep::Answer(a) => StepView::Answer(a@),
            ExecuteStep::Send { args, call } => StepView::Send { args: args@, call: call@ },
        }
    }
}

/// The arguments of a call: none where the payload is empty.
pub open spec fn arguments(payload: Seq<u8>) -> Result<JsonView, Seq<char>> {
    if payload.len() == 0 {
        Ok(JsonView::object())
    } else {
        crate::wire::json_decode(payload)
    }
}

/// The call that some arguments come to. Arguments that are no JSON, and arguments
/// that no call can be built of, are the caller's error.
pub open spec fn step_of(
    spec: ElasticsearchBackendSpec,
    args: Result<JsonView, Seq<char>>,
) -> StepView {
    match args {
        Err(m) => StepView::Answer(tool_error("invalid tool arguments JSON: "@ + m)),
        Ok(a) => match crate::call::built(spec, a) {
            Err(m) => StepView::Answer(tool_error(m)),
            Ok(call) => StepView::Send { args: a, call },
        },
    }
}

/// Builds the call that some arguments come to.
pub fn plan_arguments(spec: &ElasticsearchBackendSpec, args: Result<Json, String>) -> (r: ExecuteStep)
    requires
        spec.wf(),
        crate::json::value_result(args) matches Ok(a) ==> a.wf(),
    ensures
        r@ == step_of(*spec, crate::json::value_result(args)),
        r@ matches StepView::Send { args: a, .. } ==> a.wf(),
{
    match args {
        Err(m) => ExecuteStep::Answer(
            answer_error(
                "invalid tool arguments JSON: ".to_owned().concat(m.as_str()).as_str(),
            ),
        ),
        Ok(a) => match build_call(spec, &a) {
            Err(m) => ExecuteStep::Answer(answer_error(m.as_str())),
            Ok(call) => ExecuteStep::Send { args: a, call },
        },
    }
}

/// The body that a response becomes.
pub enum BodyChoice {
    /// The envelope as it is.
    Envelope,
    /// The contents of a resource.
    Resource(String),
    /// The message of a prompt.
    Prompt,
    /// Nothing: a resource without a URI.
    MissingUri,
}

/// What a choice says.
pub enum ChoiceView {
    Envelope,
    Resource(Seq<char>),
    Prompt,
    MissingUri,
}

impl View for BodyChoice {
    type V = ChoiceView;

    open spec fn view(&self) -> ChoiceView {
        match self {
            BodyChoice::Envelope => ChoiceView::Envelope,
            BodyChoice::Resource(u) => ChoiceView::Resource(u@),
            BodyChoice::Prompt => ChoiceView::Prompt,
            BodyChoice::MissingUri => ChoiceView::MissingUri,
        }
    }
}

/// The body that a response becomes. Only a success is put into the body of a
/// resource or a prompt.
pub open spec fn choice_of(
    surface: Surface,
    uri: Option<Seq<char>>,
    args: JsonView,
    res: ResultView,
) -> ChoiceView {
    if !res.succeeded() {
        ChoiceView::Envelope
    } else {
        match surface {
            Surface::Tool => ChoiceView::Envelope,
            Surface::Resource => match crate::surface::resource_uri(uri, args) {
                Some(u) => ChoiceView::Resource(u),
                None => ChoiceView::MissingUri,
            },
            Surface::Prompt => ChoiceView::Prompt,
        }
    }
}

/// Chooses the body that a response becomes.
pub fn choose_body(spec: &ElasticsearchBackendSpec, args: &Json, res: &EsResult) -> (r: BodyChoice)
    ensures
        r@ == choice_of(spec.surface, crate::text::opt_string(spec.uri), args@, res@),
{
    if res.status < 200 || res.status >= 300 {
        return BodyChoice::Envelope;
    }
    match spec.surface {
        Surface::Tool => BodyChoice::Envelope,
        Surface::Resource => match resolve_resource_uri(borrowed(&spec.uri), args) {
            Some(u) => BodyChoice::Resource(u.to_owned()),
            None => BodyChoice::MissingUri,
        },
        Surface::Prompt => BodyChoice::Prompt,
    }
}

/// What a resource or a prompt is made of: the response as JSON, or the envelope
/// where there is none.
pub open spec fn upstream_of(call: CallView, res: ResultView) -> JsonView {
    match res.json {
        Some(v) => v,
        None => crate::response::envelope(call, res),
    }
}

/// The answer to a call that the server answered.
pub open spec fn answer_of(
    surface: Surface,
    uri: Option<Seq<char>>,
    args: JsonView,
    call: CallView,
    res: ResultView,
) -> ResponseView {
    let truncated = surface is Tool && res.truncated;
    let upstream = crate::wire::json_text(upstream_of(call, res));
    match choice_of(surface, uri, args, res) {
        ChoiceView::MissingUri => tool_error(
            "resource surface requires a `uri` (set a static `uri` on the binding or invoke via a resources/read request)"@,
        ),
        ChoiceView::Envelope => ResponseView {
            payload: value_bytes(crate::response::envelope(call, res)),
            truncated,
        },
        ChoiceView::Resource(u) => ResponseView {
            payload: value_bytes(crate::surface::contents_body(u, upstream)),
            truncated,
        },
        ChoiceView::Prompt => ResponseView {
            payload: value_bytes(crate::surface::messages_body(upstream)),
            truncated,
        },
    }
}

/// What a call comes to.
pub open spec fn finished(
    spec: ElasticsearchBackendSpec,
    args: JsonView,
    call: CallView,
    outcome: Result<ResultView, Seq<char>>,
) -> Result<ResponseView, BackendFault> {
    match outcome {
        Ok(res) => Ok(
            answer_of(spec.surface, crate::text::opt_string(spec.uri), args, call, res),
        ),
        Err(message) => if crate::observe::speaks_of_timeout(message) {
            Err(BackendFault::Timeout { timeout_ms: spec.operation_timeout_ms })
        } else {
            Err(BackendFault::Transport { message })
        },
    }
}

/// The second half of a call: the answer, made of what came of the call.
pub fn finish_execute(
    spec: &ElasticsearchBackendSpec,
    args: &Json,
    call: &EsRestCall,
    outcome: Result<EsResult, String>,
) -> (r: Result<BackendResponse, BackendError>)
    requires
        crate::transport::outcome(outcome) matches Ok(res) ==> res.wf(),
    ensures
        response_result(r) == finished(*spec, args@, call@, crate::transport::outcome(outcome)),
{
    let res = match outcome {
        Ok(res) => res,
        Err(message) => {
            if is_timeout(message.as_str()) {
                return Err(BackendError::Timeout { timeout_ms: spec.operation_timeout_ms });
            }
            return Err(BackendError::Transport { message });
        },
    };
    let envelope = build_envelope(spec, call, &res);
    let truncated = surface_truncated(spec.surface, res.truncated);
    let body = match choose_body(spec, args, &res) {
        BodyChoice::MissingUri => {
            return Ok(
                answer_error(
                    "resource surface requires a `uri` (set a static `uri` on the binding or invoke via a resources/read request)",
                ),
            );
        },
        BodyChoice::Envelope => envelope,
        BodyChoice::Resource(u) => match &res.json {
            Some(v) => resource_contents_body(u.as_str(), v),
            None => resource_contents_body(u.as_str(), &envelope),
        },
        BodyChoice::Prompt => match &res.json {
            Some(v) => prompt_messages_body(v),
            None => prompt_messages_body(&envelope),
        },
    };
    Ok(BackendResponse { payload: bytes_of(&body), truncated })
}

/// What the first half of a listing comes to.
pub enum ListStep {
    /// There is nothing to send: this is the page.
    Page(ResourcePage),
    /// The call to send, and where the page starts.
    Send { from: u64, call: EsRestCall },
}

/// What a step of a listing says.
pub enum ListView {
    Page(PageView),
    Send { from: u64, call: CallView },
}

impl View for ListStep {
    type V = ListView;

    open spec fn view(&self) -> ListView {
        match self {
            ListStep::Page(p) => ListView::Page(p@),
            ListStep::Send { from, call } => ListView::Send { from: *from, call: call@ },
        }
    }
}

/// Where a page starts: at the cursor, which is a natural number, or at the first hit.
pub open spec fn start_of(cursor: Option<Seq<char>>) -> Result<u64, BackendFault> {
    match cursor {
        None => Ok(0),
        Some(c) => match crate::text::unsigned_value(c) {
            Some(n) => Ok(n),
            None => Err(
                BackendFault::InvalidSpec {
                    message: "list cursor '"@ + c + "' is not a non-negative integer"@,
                },
            ),
        },
    }
}

/// The call of a listing. A configuration without one lists nothing.
pub open spec fn listing_of(spec: ElasticsearchBackendSpec, cursor: Option<Seq<char>>) -> Result<
    ListView,
    BackendFault,
> {
    match spec.list_query {
        None => Ok(ListView::Page(crate::surface::empty_view())),
        Some(list) => match start_of(cursor) {
            Err(e) => Err(e),
            Ok(from) => match crate::call::list_plan(spec, list, from) {
                Err(message) => Err(BackendFault::InvalidSpec { message }),
                Ok(p) => Ok(ListView::Send { from, call: crate::call::written(p) }),
            },
        },
    }
}

/// What the first half of a listing comes to.
pub open spec fn list_result(r: Result<ListStep, BackendError>) -> Result<ListView, BackendFault> {
    match r {
        Ok(s) => Ok(s@),
        Err(e) => Err(e@),
    }
}

/// Plans the call of a listing.
pub fn plan_page(spec: &ElasticsearchBackendSpec, cursor: Option<&str>) -> (r: Result<
    ListStep,
    BackendError,
>)
    requires
        spec.wf(),
    ensures
        list_result(r) == listing_of(*spec, crate::text::opt_str(cursor)),
{
    let list = match &spec.list_query {
        None => {
            return Ok(ListStep::Page(ResourcePage::empty()));
        },
        Some(list) => list,
    };
    let from: u64 = match cursor {
        None => 0,
        Some(c) => match parse_unsigned(c) {
            Some(n) => n,
            None => {
                return Err(
                    BackendError::InvalidSpec {
                        message: "list cursor '".to_owned().concat(c).concat(
                            "' is not a non-negative integer",
                        ),
                    },
                );
            },
        },
    };
    match build_list_call(spec, list, from) {
        Ok(call) => Ok(ListStep::Send { from, call }),
        Err(message) => Err(BackendError::InvalidSpec { message }),
    }
}

/// The hits of a search that the server answered, or how it failed.
pub open spec fn hits_or_fault(what: Seq<char>, outcome: Result<ResultView, Seq<char>>) -> Result<
    Seq<JsonView>,
    BackendFault,
> {
    match outcome {
        Err(message) => Err(BackendFault::Transport { message }),
        Ok(res) => if res.status >= 400 {
            Err(
                BackendFault::Transport {
                    message: what + crate::text::decimal(res.status as nat),
                },
            )
        } else {
            match res.json {
                Some(v) => Ok(crate::response::hits_of(v)),
                None => Ok(Seq::empty()),
            }
        },
    }
}

fn hits_in(what: &str, outcome: &Result<EsResult, String>) -> (r: Result<Vec<Json>, BackendError>)
    ensures
        match r {
            Ok(hits) => hits_or_fault(what@, crate::transport::outcome(*outcome)) == Ok::<
                Seq<JsonView>,
                BackendFault,
            >(crate::json::values(hits@)),
            Err(e) => hits_or_fault(what@, crate::transport::outcome(*outcome)) == Err::<
                Seq<JsonView>,
                BackendFault,
            >(e@),
        },
{
    match outcome {
        Err(message) => Err(BackendError::Transport { message: message.clone() }),
        Ok(res) => {
            if res.status >= 400 {
                return Err(
                    BackendError::Transport {
                        message: what.to_owned().concat(
                            decimal_text(res.status as u128).as_str(),
                        ),
                    },
                );
            }
            match &res.json {
                Some(v) => Ok(search_hits(v)),
                None => {
                    let none: Vec<Json> = Vec::new();
                    assert(crate::json::values(none@) =~= Seq::<JsonView>::empty());
                    Ok(none)
                },
            }
        },
    }
}

/// What a listing comes to.
pub open spec fn listed_page(
    list: ListQueryConfig,
    from: u64,
    outcome: Result<ResultView, Seq<char>>,
) -> Result<PageView, BackendFault> {
    match hits_or_fault("elasticsearch list_query returned status "@, outcome) {
        Err(e) => Err(e),
        Ok(hits) => Ok(
            crate::surface::page_of(
                hits,
                list.uri_field@,
                crate::text::opt_string(list.name_field),
                crate::text::opt_string(list.description_field),
                from,
                list.page_size,
            ),
        ),
    }
}

/// Whether the cursor behind a page can be written: the start and the hits together
/// are a number of 64 bits.
pub open spec fn cursor_fits(
    list: ListQueryConfig,
    from: u64,
    outcome: Result<ResultView, Seq<char>>,
) -> bool {
    hits_or_fault("elasticsearch list_query returned status "@, outcome) matches Ok(hits)
        ==> hits.len() >= list.page_size ==> from + hits.len() <= u64::MAX
}

/// The second half of a listing: the page, made of what came of the call.
pub fn finish_list(list: &ListQueryConfig, from: u64, outcome: Result<EsResult, String>) -> (r:
    Result<ResourcePage, BackendError>)
    requires
        cursor_fits(*list, from, crate::transport::outcome(outcome)),
    ensures
        match r {
            Ok(p) => listed_page(*list, from, crate::transport::outcome(outcome)) == Ok::<
                PageView,
                BackendFault,
            >(p@),
            Err(e) => listed_page(*list, from, crate::transport::outcome(outcome)) == Err::<
                PageView,
                BackendFault,
            >(e@),
        },
{
    match hits_in("elasticsearch list_query returned status ", &outcome) {
        Err(e) => Err(e),
        Ok(hits) => {
            assert(crate::json::values(hits@).len() == hits@.len());
            Ok(
                hits_to_resource_page(
                    hits.as_slice(),
                    list.uri_field.as_str(),
                    borrowed(&list.name_field),
                    borrowed(&list.description_field),
                    from,
                    list.page_size,
                ),
            )
        },
    }
}

/// What the first half of a completion comes to.
pub enum CompleteStep {
    /// There is nothing to send: these are the candidates.
    Values(Vec<String>),
    /// The call to send.
    Send { call: EsRestCall },
}

/// What a step of a completion says.
pub enum CompleteView {
    Values(Seq<Seq<char>>),
    Send { call: CallView },
}

impl View for CompleteStep {
    type V = CompleteView;

    open spec fn view(&self) -> CompleteView {
        match self {
            CompleteStep::Values(v) => CompleteView::Values(crate::text::strings(v@)),
            CompleteStep::Send { call } => CompleteView::Send { call: call@ },
        }
    }
}

/// Whether an entry is the completion of a variable.
pub open spec fn completes(
    entries: Seq<(String, EsCompletionConfig)>,
    name: Seq<char>,
) -> spec_fn(int) -> bool {
    |i: int| entries[i].0@ == name
}

/// The completion of a variable, among completions of which the first counts.
pub open spec fn completion_in(
    entries: Seq<(String, EsCompletionConfig)>,
    name: Seq<char>,
) -> Option<EsCompletionConfig> {
    match crate::text::first_from(0, entries.len() as int, completes(entries, name)) {
        Some(i) => Some(entries[i].1),
        None => None,
    }
}

/// The completion of a variable.
pub fn completion_for<'a>(spec: &'a ElasticsearchBackendSpec, variable: &str) -> (r: Option<
    &'a EsCompletionConfig,
>)
    ensures
        match r {
            Some(c) => completion_in(spec.variable_completions@, variable@) == Some(*c),
            None => completion_in(spec.variable_completions@, variable@) is None,
        },
        spec.wf() ==> (r matches Some(c) ==> c.wf()),
{
    let entries = &spec.variable_completions;
    let ghost named = completes(entries@, variable@);
    let ghost n = entries@.len() as int;
    let mut i: usize = 0;
    while i < entries.len()
        invariant
            n == entries@.len(),
            i <= n,
            entries == spec.variable_completions,
            named == completes(entries@, variable@),
            crate::text::first_from(0, n, named) == crate::text::first_from(i as int, n, named),
        decreases entries@.len() - i,
    {
        if same_text(entries[i].0.as_str(), variable) {
            return Some(&entries[i].1);
        }
        i += 1;
    }
    None
}

/// The most candidates of a completion.
pub open spec fn candidate_limit(c: EsCompletionConfig) -> u32 {
    match c.max_results {
        Some(n) => n,
        None => 100,
    }
}

fn limit_of(c: &EsCompletionConfig) -> (r: u32)
    ensures
        r == candidate_limit(*c),
{
    match c.max_results {
        Some(n) => n,
        None => 100,
    }
}

/// The call of a completion. A variable without one has no candidates.
pub open spec fn completing(
    spec: ElasticsearchBackendSpec,
    variable: Seq<char>,
    prefix: Seq<char>,
) -> Result<CompleteView, BackendFault> {
    match completion_in(spec.variable_completions@, variable) {
        None => Ok(CompleteView::Values(Seq::empty())),
        Some(c) => match crate::call::completion_plan(
            spec,
            c,
            prefix,
            candidate_limit(c) as u64,
        ) {
            Err(message) => Err(BackendFault::InvalidSpec { message }),
            Ok(p) => Ok(CompleteView::Send { call: crate::call::written(p) }),
        },
    }
}

/// What the first half of a completion comes to.
pub open spec fn complete_result(r: Result<CompleteStep, BackendError>) -> Result<
    CompleteView,
    BackendFault,
> {
    match r {
        Ok(s) => Ok(s@),
        Err(e) => Err(e@),
    }
}

/// Plans the call of a completion.
pub fn plan_candidates(spec: &ElasticsearchBackendSpec, variable: &str, prefix: &str) -> (r: Result<
    CompleteStep,
    BackendError,
>)
    requires
        spec.wf(),
    ensures
        complete_result(r) == completing(*spec, variable@, prefix@),
{
    match completion_for(spec, variable) {
        None => {
            let none: Vec<String> = Vec::new();
            assert(crate::text::strings(none@) =~= Seq::<Seq<char>>::empty());
            Ok(CompleteStep::Values(none))
        },
        Some(c) => match build_completion_call(spec, c, prefix, limit_of(c) as u64) {
            Ok(call) => Ok(CompleteStep::Send { call }),
            Err(message) => Err(BackendError::InvalidSpec { message }),
        },
    }
}

/// What a completion comes to.
pub open spec fn candidates_of(c: EsCompletionConfig, outcome: Result<ResultView, Seq<char>>) -> Result<
    Seq<Seq<char>>,
    BackendFault,
> {
    match hits_or_fault("elasticsearch completion returned status "@, outcome) {
        Err(e) => Err(e),
        Ok(hits) => Ok(
            crate::surface::field_texts(
                crate::surface::first_hits(hits, candidate_limit(c) as usize),
                c.field@,
            ),
        ),
    }
}

/// The second half of a completion: the candidates, made of what came of the call.
pub fn finish_complete(c: &EsCompletionConfig, outcome: Result<EsResult, String>) -> (r: Result<
    Vec<String>,
    BackendError,
>)
    ensures
        match r {
            Ok(v) => candidates_of(*c, crate::transport::outcome(outcome)) == Ok::<
                Seq<Seq<char>>,
                BackendFault,
            >(crate::text::strings(v@)),
            Err(e) => candidates_of(*c, crate::transport::outcome(outcome)) == Err::<
                Seq<Seq<char>>,
                BackendFault,
            >(e@),
        },
{
    match hits_in("elasticsearch completion returned status ", &outcome) {
        Err(e) => Err(e),
        Ok(hits) => Ok(
            hits_to_completion_values(
                hits.as_slice(),
                c.field.as_str(),
                limit_of(c) as usize,
            ),
        ),
    }
}

/// What an audit says of a configuration.
pub open spec fn audit_tags(spec: ElasticsearchBackendSpec) -> JsonView {
    JsonView::object().with("es.operation"@, JsonView::Text(spec.operation.name())).with(
        "es.index_mode"@,
        JsonView::Text(
            if spec.allow_any_index {
                "any"@
            } else {
                "allowlist"@
            },
        ),
    )
}

/// The binding: its registered profiles by name.
pub struct ElasticsearchBackendPlugin {
    profiles: Vec<(String, EsProfile)>,
}

impl Default for ElasticsearchBackendPlugin {
    fn default() -> (r: Self)
        ensures
            r.wf(),
            forall|name: Seq<char>| (#[trigger] r.profile_of(name)) is None,
    {
        Self::new()
    }
}

impl ElasticsearchBackendPlugin {
    /// The profile with a name.
    pub closed spec fn profile_of(self, name: Seq<char>) -> Option<EsProfile> {
        profile_in(self.profiles@, name)
    }

    /// Every registered configuration holds valid values.
    pub closed spec fn wf(self) -> bool {
        forall|i: int| 0 <= i < self.profiles@.len() ==> (#[trigger] self.profiles@[i]).1.spec.wf()
    }

    /// The binding without profiles.
    pub fn new() -> (r: Self)
        ensures
            r.wf(),
            forall|name: Seq<char>| (#[trigger] r.profile_of(name)) is None,
    {
        ElasticsearchBackendPlugin { profiles: Vec::new() }
    }

    /// The binding without profiles. There is nothing to configure but them.
    pub fn from_config_json(_config_json: &str) -> (r: Self)
        ensures
            r.wf(),
            forall|name: Seq<char>| (#[trigger] r.profile_of(name)) is None,
    {
        Self::new()
    }

    /// The kind of the backend.
    pub fn kind(&self) -> (r: &'static str)
        ensures
            r@ == "elasticsearch"@,
    {
        "elasticsearch"
    }

    /// The profile with a name.
    pub fn profile(&self, name: &str) -> (r: Option<&EsProfile>)
        ensures
            match r {
                Some(p) => self.profile_of(name@) == Some(*p),
                None => self.profile_of(name@) is None,
            },
            self.wf() ==> (r matches Some(p) ==> p.spec.wf()),
    {
        let mut i: usize = 0;
        while i < self.profiles.len()
            invariant
                i <= self.profiles@.len(),
                forall|j: int| 0 <= j < i ==> (#[trigger] self.profiles@[j]).0@ != name@,
            decreases self.profiles@.len() - i,
        {
            if same_text(self.profiles[i].0.as_str(), name) {
                proof {
                    lemma_profile_skip(self.profiles@, name@, i as int);
                    assert(self.profiles@.skip(i as int)[0] == self.profiles@[i as int]);
                }
                return Some(&self.profiles[i].1);
            }
            i += 1;
        }
        proof {
            lemma_profile_skip(self.profiles@, name@, i as int);
        }
        None
    }

    /// Stores a profile under a name, in the place of one that was there.
    fn insert(&mut self, name: &str, profile: EsProfile)
        requires
            old(self).wf(),
            profile.spec.wf(),
        ensures
            final(self).wf(),
            forall|other: Seq<char>| #[trigger]
                final(self).profile_of(other) == if other == name@ {
                    Some(profile)
                } else {
                    old(self).profile_of(other)
                },
    {
        let ghost before = self.profiles@;
        let mut i: usize = 0;
        while i < self.profiles.len() && !same_text(self.profiles[i].0.as_str(), name)
            invariant
                before == self.profiles@,
                *self == *old(self),
                i <= self.profiles@.len(),
                forall|j: int| 0 <= j < i ==> (#[trigger] self.profiles@[j]).0@ != name@,
            decreases self.profiles@.len() - i,
        {
            i += 1;
        }
        let entry = (name.to_owned(), profile);
        proof {
            let after = if i < before.len() {
                before.update(i as int, entry)
            } else {
                before.push(entry)
            };
            assert forall|other: Seq<char>| #[trigger]
                profile_in(after, other) == if other == name@ {
                    Some(profile)
                } else {
                    profile_in(before, other)
                } by {
                lemma_profile_replace(before, i as int, entry, other);
            }
        }
        if i < self.profiles.len() {
            self.profiles.set(i, entry);
        } else {
            self.profiles.push(entry);
        }
        proof {
            assert forall|j: int| 0 <= j < self.profiles@.len() implies (
            #[trigger] self.profiles@[j]).1.spec.wf() by {
                if j != i {
                    assert(self.profiles@[j] == before[j]);
                }
            }
        }
    }

    /// The second half of a registration: with a client for it the profile is stored,
    /// without one nothing changes.
    pub fn finish_registration(
        &mut self,
        profile_name: &str,
        profile: EsProfile,
        client: Result<(), String>,
    ) -> (r: Result<(), BackendError>)
        requires
            old(self).wf(),
            profile.spec.wf(),
        ensures
            final(self).wf(),
            match client {
                Ok(_) => {
                    &&& r is Ok
                    &&& forall|other: Seq<char>| #[trigger]
                        final(self).profile_of(other) == if other == profile_name@ {
                            Some(profile)
                        } else {
                            old(self).profile_of(other)
                        }
                },
                Err(m) => {
                    &&& r matches Err(e) && e@ == (BackendFault::InvalidSpec {
                        message: "elasticsearch client init: "@ + m@,
                    })
                    &&& *final(self) == *old(self)
                },
            },
    {
        match client {
            Err(m) => Err(
                BackendError::InvalidSpec {
                    message: "elasticsearch client init: ".to_owned().concat(m.as_str()),
                },
            ),
            Ok(_) => {
                self.insert(profile_name, profile);
                Ok(())
            },
        }
    }

    /// The first half of a call: the call to send, or the answer where there is none.
    pub fn plan_execute(&self, profile_name: &str, payload: &[u8]) -> (r: Result<
        ExecuteStep,
        BackendError,
    >)
        requires
            self.wf(),
        ensures
            match self.profile_of(profile_name@) {
                None => r matches Err(e) && e@ == (BackendFault::ProfileNotFound {
                    backend_name: profile_name@,
                }),
                Some(p) => r matches Ok(s) && s@ == step_of(p.spec, arguments(payload@)) && (s@
                    matches StepView::Send { args, .. } ==> args.wf()),
            },
    {
        match self.profile(profile_name) {
            None => Err(
                BackendError::ProfileNotFound { backend_name: profile_name.to_owned() },
            ),
            Some(p) => {
                let args = if payload.len() == 0 {
                    Ok(Json::object())
                } else {
                    Json::decode(payload)
                };
                Ok(plan_arguments(&p.spec, args))
            },
        }
    }

    /// The first half of a listing: the call to send, or the page where there is none.
    pub fn plan_list_resources(&self, profile_name: &str, cursor: Option<&str>) -> (r: Result<
        ListStep,
        BackendError,
    >)
        requires
            self.wf(),
        ensures
            list_result(r) == (match self.profile_of(profile_name@) {
                None => Err::<ListView, BackendFault>(
                    BackendFault::ProfileNotFound { backend_name: profile_name@ },
                ),
                Some(p) => listing_of(p.spec, crate::text::opt_str(cursor)),
            }),
    {
        match self.profile(profile_name) {
            None => Err(
                BackendError::ProfileNotFound { backend_name: profile_name.to_owned() },
            ),
            Some(p) => plan_page(&p.spec, cursor),
        }
    }

    /// The first half of a completion: the call to send, or the candidates where there
    /// is none.
    pub fn plan_complete(&self, profile_name: &str, variable_name: &str, prefix: &str) -> (r:
        Result<CompleteStep, BackendError>)
        requires
            self.wf(),
        ensures
            complete_result(r) == (match self.profile_of(profile_name@) {
                None => Err::<CompleteView, BackendFault>(
                    BackendFault::ProfileNotFound { backend_name: profile_name@ },
                ),
                Some(p) => completing(p.spec, variable_name@, prefix@),
            }),
    {
        match self.profile(profile_name) {
            None => Err(
                BackendError::ProfileNotFound { backend_name: profile_name.to_owned() },
            ),
            Some(p) => plan_candidates(&p.spec, variable_name, prefix),
        }
    }

    /// The schema of the arguments of a profile.
    pub fn input_schema(&self, profile_name: &str) -> (r: Option<Json>)
        ensures
            crate::json::opt_value(r) == (match self.profile_of(profile_name@) {
                Some(p) => Some(crate::schema::input_schema(p.spec.operation)),
                None => None,
            }),
            r matches Some(j) ==> j@.wf(),
    {
        match self.profile(profile_name) {
            Some(p) => Some(op_input_schema(p.spec.operation)),
            None => None,
        }
    }

    /// The schema of the envelope, which is the same for every profile.
    pub fn output_schema(&self, _profile_name: &str) -> (r: Option<Json>)
        ensures
            crate::json::opt_value(r) == Some(crate::schema::envelope_schema()),
            r matches Some(j) ==> j@.wf(),
    {
        Some(result_envelope_schema())
    }

    /// What an audit says of a profile: its operation, and whether any index goes.
    pub fn audit_metadata(&self, profile_name: &str) -> (r: Json)
        ensures
            r@ == (match self.profile_of(profile_name@) {
                Some(p) => audit_tags(p.spec),
                None => JsonView::object(),
            }),
            r@.wf(),
    {
        match self.profile(profile_name) {
            Some(p) => {
                let mode = if p.spec.allow_any_index {
                    "any"
                } else {
                    "allowlist"
                };
                Json::object().with("es.operation", Json::text(p.spec.operation.as_str())).with(
                    "es.index_mode",
                    Json::text(mode),
                )
            },
            None => Json::object(),
        }
    }
}

/// Only a success is put into the body of a resource or a prompt; whatever else the
/// server answers is handed out in the envelope, on every surface.
pub proof fn law_only_success_is_reshaped(
    surface: Surface,
    uri: Option<Seq<char>>,
    args: JsonView,
    call: CallView,
    res: ResultView,
)
    requires
        !res.succeeded(),
    ensures
        answer_of(surface, uri, args, call, res).payload == value_bytes(
            crate::response::envelope(call, res),
        ),
{
}

/// The body of a resource or a prompt is never marked as cut.
pub proof fn law_resource_and_prompt_are_never_cut(
    surface: Surface,
    uri: Option<Seq<char>>,
    args: JsonView,
    call: CallView,
    res: ResultView,
)
    requires
        !(surface is Tool),
    ensures
        !answer_of(surface, uri, args, call, res).truncated,
{
}

/// No secret gets into an answer: it depends on the configuration only by the
/// surface, the fixed URI, and, where the call timed out, the timeout.
pub proof fn law_answer_holds_no_credentials(
    a: ElasticsearchBackendSpec,
    b: ElasticsearchBackendSpec,
    args: JsonView,
    call: CallView,
    outcome: Result<ResultView, Seq<char>>,
)
    requires
        a.surface == b.surface,
        a.uri == b.uri,
        a.operation_timeout_ms == b.operation_timeout_ms,
    ensures
        finished(a, args, call, outcome) == finished(b, args, call, outcome),
{
}

/// A request that no call can be built of is answered as an error of the tool, and
/// nothing is sent.
pub proof fn law_refused_arguments_are_tool_errors(
    spec: ElasticsearchBackendSpec,
    args: Result<JsonView, Seq<char>>,
)
    ensures
        step_of(spec, args) is Answer <==> (match args {
            Err(_) => true,
            Ok(a) => crate::call::built(spec, a) is Err,
        }),
        args matches Ok(a) ==> (crate::call::built(spec, a) matches Err(m) ==> step_of(spec, args)
            == StepView::Answer(tool_error(m))),
{
}

/// The cursor behind a full page leads to the listing that starts behind that page.
pub proof fn law_cursor_resumes_listing(
    list: ListQueryConfig,
    from: u64,
    outcome: Result<ResultView, Seq<char>>,
)
    requires
        cursor_fits(list, from, outcome),
    ensures
        listed_page(list, from, outcome) matches Ok(page) ==> (page.next_cursor matches Some(c)
            ==> {
            let hits = hits_or_fault("elasticsearch list_query returned status "@, outcome)->Ok_0;
            start_of(page.next_cursor) == Ok::<u64, BackendFault>((from + hits.len()) as u64)
        }),
{
    if let Ok(hits) = hits_or_fault("elasticsearch list_query returned status "@, outcome) {
        if hits.len() >= list.page_size {
            crate::text::law_decimal_reads_back((from + hits.len()) as u64);
        }
    }
}

/// An error of the tool is one verbatim result that is marked as an error and whose
/// content is one text, the message.
pub proof fn law_tool_error_carries_its_message(message: Seq<char>, key: Seq<char>)
    ensures
        verbatim(message).get(key) is Some ==> key == "__mcpg_verbatim_result"@,
        verbatim(message).get("__mcpg_verbatim_result"@) matches Some(result) && {
            &&& result.get("isError"@) == Some(JsonView::Bool(true))
            &&& result.get(key) is Some ==> key == "isError"@ || key == "content"@
            &&& result.get("content"@) matches Some(JsonView::Array(content))
            &&& content.len() == 1
            &&& content[0].get("type"@) == Some(JsonView::Text("text"@))
            &&& content[0].get("text"@) == Some(JsonView::Text(message))
            &&& content[0].get(key) is Some ==> key == "type"@ || key == "text"@
        },
        tool_error(message).payload == encode_utf8(crate::wire::json_text(verbatim(message))),
        !tool_error(message).truncated,
{
    broadcast use crate::json::lemma_get_with;

    reveal_strlit("content");
    reveal_strlit("isError");
    reveal_strlit("type");
    reveal_strlit("text");
    assert("content"@[0] == 'c' && "isError"@[0] == 'i' && "type"@[1] == 'y' && "text"@[1] == 'e');
}

/// A request without a payload has no arguments, and one with a payload those that it
/// reads as.
pub proof fn law_arguments_are_the_payload(payload: Seq<u8>)
    ensures
        payload.len() == 0 ==> arguments(payload) == Ok::<JsonView, Seq<char>>(
            JsonView::Object(Seq::empty()),
        ),
        payload.len() > 0 ==> arguments(payload) == crate::wire::json_decode(payload),
{
}

/// What a request comes to: arguments that do not read are answered as an error of the
/// tool that says so, arguments that no call can be built of as one that says why, and
/// for any others the built call is sent, along with the arguments.
pub proof fn law_request_is_answered_or_sent(
    spec: ElasticsearchBackendSpec,
    args: JsonView,
    message: Seq<char>,
)
    ensures
        step_of(spec, Err(message)) == StepView::Answer(
            tool_error("invalid tool arguments JSON: "@ + message),
        ),
        match crate::call::built(spec, args) {
            Ok(call) => step_of(spec, Ok(args)) == (StepView::Send { args, call }),
            Err(m) => step_of(spec, Ok(args)) == StepView::Answer(tool_error(m)),
        },
{
}

/// What a success becomes on each surface. A tool hands out the envelope. A prompt and a
/// resource hand out a body of their own round the JSON of the response, or round the
/// envelope where the response is none. A resource without a URI is an error of the tool.
pub proof fn law_success_becomes_the_body_of_its_surface(
    surface: Surface,
    uri: Option<Seq<char>>,
    args: JsonView,
    call: CallView,
    res: ResultView,
)
    requires
        200 <= res.status < 300,
    ensures
        ({
            let answer = answer_of(surface, uri, args, call, res);
            let inner = crate::wire::json_text(
                match res.json {
                    Some(v) => v,
                    None => crate::response::envelope(call, res),
                },
            );
            match surface {
                Surface::Tool => {
                    &&& answer.payload == encode_utf8(
                        crate::wire::json_text(crate::response::envelope(call, res)),
                    )
                    &&& answer.truncated == res.truncated
                },
                Surface::Prompt => {
                    &&& answer.payload == encode_utf8(
                        crate::wire::json_text(crate::surface::messages_body(inner)),
                    )
                    &&& !answer.truncated
                },
                Surface::Resource => {
                    &&& !answer.truncated
                    &&& match crate::surface::resource_uri(uri, args) {
                        Some(u) => answer.payload == encode_utf8(
                            crate::wire::json_text(crate::surface::contents_body(u, inner)),
                        ),
                        None => answer == tool_error(
                            "resource surface requires a `uri` (set a static `uri` on the binding or invoke via a resources/read request)"@,
                        ),
                    }
                },
            }
        }),
{
}

/// Whatever is no success is handed out as the envelope on every surface, and marked as
/// cut on a tool alone, where it was.
pub proof fn law_failure_of_the_server_is_the_envelope(
    surface: Surface,
    uri: Option<Seq<char>>,
    args: JsonView,
    call: CallView,
    res: ResultView,
)
    requires
        !(200 <= res.status < 300),
    ensures
        ({
            let answer = answer_of(surface, uri, args, call, res);
            &&& answer.payload == encode_utf8(
                crate::wire::json_text(crate::response::envelope(call, res)),
            )
            &&& answer.truncated <==> surface is Tool && res.truncated
        }),
{
}

/// The choice of a body by surface, URI and status.
pub proof fn law_body_is_chosen_by_surface(
    surface: Surface,
    uri: Option<Seq<char>>,
    args: JsonView,
    res: ResultView,
)
    ensures
        ({
            let choice = choice_of(surface, uri, args, res);
            let success = 200 <= res.status < 300;
            &&& choice is Envelope <==> !success || surface is Tool
            &&& choice is Prompt <==> success && surface is Prompt
            &&& success && surface is Resource ==> match crate::surface::resource_uri(uri, args) {
                Some(u) => choice == ChoiceView::Resource(u),
                None => choice is MissingUri,
            }
        }),
{
}

/// How a call ends for the caller: with an answer where the server gave one, whatever its
/// status, with a timeout of the configured length where the failure speaks of one, and
/// else with the failure as it was reported.
pub proof fn law_call_ends_for_the_caller(
    spec: ElasticsearchBackendSpec,
    args: JsonView,
    call: CallView,
    res: ResultView,
    message: Seq<char>,
)
    ensures
        finished(spec, args, call, Ok(res)) == Ok::<ResponseView, BackendFault>(
            answer_of(spec.surface, crate::text::opt_string(spec.uri), args, call, res),
        ),
        crate::observe::speaks_of_timeout(message) ==> finished(spec, args, call, Err(message))
            == Err::<ResponseView, BackendFault>(
            BackendFault::Timeout { timeout_ms: spec.operation_timeout_ms },
        ),
        !crate::observe::speaks_of_timeout(message) ==> finished(spec, args, call, Err(message))
            == Err::<ResponseView, BackendFault>(BackendFault::Transport { message }),
{
}

/// A listing starts at the first hit, or at the number that its cursor reads as. A cursor
/// that is no number is refused.
pub proof fn law_listing_starts_at_its_cursor(cursor: Seq<char>)
    ensures
        start_of(None) == Ok::<u64, BackendFault>(0),
        match crate::text::unsigned_value(cursor) {
            Some(n) => start_of(Some(cursor)) == Ok::<u64, BackendFault>(n),
            None => start_of(Some(cursor)) == Err::<u64, BackendFault>(
                BackendFault::InvalidSpec {
                    message: "list cursor '"@ + cursor + "' is not a non-negative integer"@,
                },
            ),
        },
{
}

/// A binding without a listing lists nothing, whatever the cursor. One with a listing
/// sends the search for the page that starts at the cursor, or says why it cannot.
pub proof fn law_listing_sends_its_search(
    spec: ElasticsearchBackendSpec,
    cursor: Option<Seq<char>>,
)
    ensures
        spec.list_query is None ==> (listing_of(spec, cursor) matches Ok(ListView::Page(page))
            && page.resources.len() == 0 && page.next_cursor is None),
        spec.list_query matches Some(list) ==> match start_of(cursor) {
            Err(e) => listing_of(spec, cursor) == Err::<ListView, BackendFault>(e),
            Ok(from) => match crate::call::list_plan(spec, list, from) {
                Ok(p) => listing_of(spec, cursor) == Ok::<ListView, BackendFault>(
                    ListView::Send { from, call: crate::call::written(p) },
                ),
                Err(message) => listing_of(spec, cursor) == Err::<ListView, BackendFault>(
                    BackendFault::InvalidSpec { message },
                ),
            },
        },
{
}

/// What comes of the search behind a listing or a completion: its failure is handed on,
/// a status from 400 on is a failure that names it, and any other answer has the hits of
/// its JSON, or none.
pub proof fn law_search_behind_a_page(what: Seq<char>, res: ResultView, message: Seq<char>)
    ensures
        hits_or_fault(what, Err(message)) == Err::<Seq<JsonView>, BackendFault>(
            BackendFault::Transport { message },
        ),
        res.status >= 400 ==> hits_or_fault(what, Ok(res)) == Err::<Seq<JsonView>, BackendFault>(
            BackendFault::Transport { message: what + crate::text::decimal(res.status as nat) },
        ),
        res.status < 400 ==> (hits_or_fault(what, Ok(res)) matches Ok(hits) && match res.json {
            Some(v) => hits == crate::response::hits_of(v),
            None => hits.len() == 0,
        }),
{
}

/// The page of a listing is made of the hits of its search, by the configured fields and
/// page size, or it is the failure of the search.
pub proof fn law_page_is_made_of_the_hits(
    list: ListQueryConfig,
    from: u64,
    outcome: Result<ResultView, Seq<char>>,
)
    ensures
        match hits_or_fault("elasticsearch list_query returned status "@, outcome) {
            Err(e) => listed_page(list, from, outcome) == Err::<PageView, BackendFault>(e),
            Ok(hits) => {
                &&& listed_page(list, from, outcome) matches Ok(page)
                &&& page.resources == crate::surface::listed(
                    hits,
                    list.uri_field@,
                    crate::text::opt_string(list.name_field),
                    crate::text::opt_string(list.description_field),
                )
                &&& hits.len() < list.page_size ==> page.next_cursor is None
                &&& hits.len() >= list.page_size ==> page.next_cursor == Some(
                    crate::text::decimal(from as nat + hits.len()),
                )
            },
        },
{
}

/// A variable is completed by the first completion of its name, and by none where there
/// is none of its name.
pub proof fn law_completion_of_a_variable(
    entries: Seq<(String, EsCompletionConfig)>,
    name: Seq<char>,
    at: int,
)
    ensures
        0 <= at < entries.len() && entries[at].0@ == name && (forall|j: int|
            0 <= j < at ==> (#[trigger] entries[j]).0@ != name) ==> completion_in(entries, name)
            == Some(entries[at].1),
        (forall|j: int| 0 <= j < entries.len() ==> (#[trigger] entries[j]).0@ != name)
            ==> completion_in(entries, name) is None,
{
    let named = completes(entries, name);
    let found = crate::text::first_from(0, entries.len() as int, named);
    crate::text::lemma_first_from(0, entries.len() as int, named);
    if 0 <= at < entries.len() && entries[at].0@ == name && (forall|j: int|
        0 <= j < at ==> (#[trigger] entries[j]).0@ != name) {
        assert(named(at));
        assert(entries[found->0].0@ == name);
        assert(found == Some(at));
    }
}

/// A variable without a completion has no candidates, and nothing is sent for it. One
/// with a completion sends its search for what was typed, for as many hits as the
/// completion allows, which is a hundred where it does not say.
pub proof fn law_completion_sends_its_search(
    spec: ElasticsearchBackendSpec,
    variable: Seq<char>,
    prefix: Seq<char>,
)
    ensures
        match completion_in(spec.variable_completions@, variable) {
            None => completing(spec, variable, prefix) matches Ok(CompleteView::Values(v)) && v.len()
                == 0,
            Some(c) => {
                let size = match c.max_results {
                    Some(n) => n as u64,
                    None => 100u64,
                };
                match crate::call::completion_plan(spec, c, prefix, size) {
                    Ok(p) => completing(spec, variable, prefix) == Ok::<CompleteView, BackendFault>(
                        CompleteView::Send { call: crate::call::written(p) },
                    ),
                    Err(message) => completing(spec, variable, prefix) == Err::<
                        CompleteView,
                        BackendFault,
                    >(BackendFault::InvalidSpec { message }),
                }
            },
        },
{
}

/// The candidates of a completion are the texts that the first hits of its search have in
/// the completed field, of no more hits than the completion allows, or the failure of the
/// search.
pub proof fn law_candidates_are_made_of_the_hits(
    c: EsCompletionConfig,
    outcome: Result<ResultView, Seq<char>>,
)
    ensures
        match hits_or_fault("elasticsearch completion returned status "@, outcome) {
            Err(e) => candidates_of(c, outcome) == Err::<Seq<Seq<char>>, BackendFault>(e),
            Ok(hits) => {
                let limit = match c.max_results {
                    Some(n) => n as int,
                    None => 100,
                };
                candidates_of(c, outcome) == Ok::<Seq<Seq<char>>, BackendFault>(
                    crate::surface::field_texts(
                        if hits.len() <= limit {
                            hits
                        } else {
                            hits.take(limit)
                        },
                        c.field@,
                    ),
                )
            },
        },
{
}

/// The references of secrets that come with a configuration are the texts in its list of
/// them, each in its place; what is no text is passed over, and without a list there are
/// none.
pub proof fn law_references_are_the_texts_of_their_list(
    raw: JsonView,
    a: Seq<JsonView>,
    v: JsonView,
    b: Seq<JsonView>,
)
    ensures
        match raw.get("__mcpg_secret_refs"@) {
            Some(JsonView::Array(items)) => secret_references(raw) == texts(items),
            _ => secret_references(raw).len() == 0,
        },
        texts(a + seq![v] + b) == texts(a) + (match v {
            JsonView::Text(s) => seq![s],
            _ => Seq::empty(),
        }) + texts(b),
        texts(Seq::empty()) == Seq::<Seq<char>>::empty(),
    decreases b.len(),
{
    let own = match v {
        JsonView::Text(s) => seq![s],
        _ => Seq::empty(),
    };
    let all = a + seq![v] + b;
    if b.len() == 0 {
        assert(all.drop_last() =~= a);
        assert(all.last() == v);
        assert(texts(all) =~= texts(a) + own + texts(b));
    } else {
        law_references_are_the_texts_of_their_list(raw, a, v, b.drop_last());
        assert(all.drop_last() =~= a + seq![v] + b.drop_last());
        assert(all.last() == b.last());
        assert(texts(all) =~= texts(a) + own + texts(b));
    }
}

/// A configuration is registered exactly where it was decoded and is free of faults, and
/// otherwise it is said which of the two it is.
pub proof fn law_registration_takes_what_has_no_fault(
    decoded: Result<ElasticsearchBackendSpec, String>,
)
    ensures
        decoded matches Err(m) ==> registration_fault(decoded) == Some(
            crate::config::SpecFault::Json(m@),
        ),
        decoded matches Ok(s) ==> registration_fault(decoded) == s.first_fault(),
{
}

/// A profile is the decoded configuration, its base URLs as requests are built on them,
/// and the references that came with it, and never one of a configuration with a fault.
pub proof fn law_profile_is_made_of_its_configuration(
    spec: ElasticsearchBackendSpec,
    raw: JsonView,
    p: EsProfile,
)
    ensures
        profile_made(Ok(spec), raw, p) ==> {
            &&& p.spec == spec
            &&& spec.first_fault() is None
            &&& p.urls@.len() == spec.urls@.len()
            &&& forall|i: int|
                0 <= i < spec.urls@.len() ==> (#[trigger] p.urls@[i])@ == crate::config::base_url(
                    spec.urls@[i]@,
                )
            &&& crate::text::strings(p.secret_refs@) == secret_references(raw)
        },
{
}

/// An audit tells a configuration by its operation and by whether every index goes, and
/// by nothing else.
pub proof fn law_audit_tags_of_a_configuration(spec: ElasticsearchBackendSpec, key: Seq<char>)
    ensures
        audit_tags(spec).get("es.operation"@) == Some(JsonView::Text(spec.operation.name())),
        spec.allow_any_index ==> audit_tags(spec).get("es.index_mode"@) == Some(
            JsonView::Text("any"@),
        ),
        !spec.allow_any_index ==> audit_tags(spec).get("es.index_mode"@) == Some(
            JsonView::Text("allowlist"@),
        ),
        audit_tags(spec).get(key) is Some ==> key == "es.operation"@ || key == "es.index_mode"@,
{
    broadcast use crate::json::lemma_get_with;

    reveal_strlit("es.operation");
    reveal_strlit("es.index_mode");
    assert("es.operation"@.len() == 12 && "es.index_mode"@.len() == 13);
}

} // verus!
