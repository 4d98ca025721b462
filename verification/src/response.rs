//! What comes back from the server, and the envelope round it.

use vstd::prelude::*;
use vstd::slice::slice_subrange;
use vstd::utf8::{decode_utf8, valid_utf8};

use crate::call::EsRestCall;
use crate::config::ElasticsearchBackendSpec;
use crate::json::{Json, JsonView};
use crate::text::split_path;

verus! {

/// What came back from the server.
#[derive(Debug, PartialEq, Eq)]
pub struct EsResult {
    pub status: u16,
    /// The body as a JSON value, where it is one.
    pub json: Option<Json>,
    /// The body as text.
    pub raw_body: String,
    /// Whether the body was cut at the cap.
    pub truncated: bool,
}

/// What a result says.
pub struct ResultView {
    pub status: u16,
    pub json: Option<JsonView>,
    pub raw_body: Seq<char>,
    pub truncated: bool,
}

impl View for EsResult {
    type V = ResultView;

    open spec fn view(&self) -> ResultView {
        ResultView {
            status: self.status,
            json: crate::json::opt_value(self.json),
            raw_body: self.raw_body@,
            truncated: self.truncated,
        }
    }
}

impl ResultView {
    /// The JSON value is a valid one.
    pub open spec fn wf(self) -> bool {
        self.json matches Some(v) ==> v.wf()
    }

    /// Whether the server reports success.
    pub open spec fn succeeded(self) -> bool {
        200 <= self.status < 300
    }
}

/// Name for the text of bytes in which what is not UTF-8 is replaced.
pub uninterp spec fn lossy_text(bytes: Seq<u8>) -> Seq<char>;

/// The text of bytes.
///
/// Trusted: `String::from_utf8_lossy` decodes UTF-8; bytes that are not UTF-8 are
/// replaced, and nothing else is.
#[verifier::external_body]
fn text_lossy(bytes: &[u8]) -> (r: String)
    ensures
        r@ == lossy_text(bytes@),
        valid_utf8(bytes@) ==> r@ == decode_utf8(bytes@),
{
    String::from_utf8_lossy(bytes).into_owned()
}

/// What is kept of a body.
pub open spec fn kept(bytes: Seq<u8>, cap: usize) -> Seq<u8> {
    if bytes.len() > cap {
        bytes.take(cap as int)
    } else {
        bytes
    }
}

/// A response: the body up to the cap, and read as JSON only where it was not cut.
pub open spec fn shaped(status: u16, bytes: Seq<u8>, cap: usize) -> ResultView {
    ResultView {
        status,
        json: if bytes.len() > cap {
            None
        } else {
            match crate::wire::json_decode(bytes) {
                Ok(v) => Some(v),
                Err(_) => None,
            }
        },
        raw_body: lossy_text(kept(bytes, cap)),
        truncated: bytes.len() > cap,
    }
}

/// Puts a result together from a body of so many bytes, read as JSON and as text. What
/// was cut is not handed on as JSON.
pub fn result_of(
    status: u16,
    length: usize,
    cap: usize,
    json: Option<Json>,
    raw_body: String,
) -> (r: EsResult)
    ensures
        r.status == status,
        r.truncated == (length > cap),
        crate::json::opt_value(r.json) == (if length > cap {
            None
        } else {
            crate::json::opt_value(json)
        }),
        r.raw_body == raw_body,
{
    if length > cap {
        EsResult { status, json: None, raw_body, truncated: true }
    } else {
        EsResult { status, json, raw_body, truncated: false }
    }
}

/// Shapes a response whose body holds the given bytes.
pub fn shape_response(status: u16, bytes: &[u8], cap: usize) -> (r: EsResult)
    ensures
        r@ == shaped(status, bytes@, cap),
        r@.wf(),
        valid_utf8(kept(bytes@, cap)) ==> r@.raw_body == decode_utf8(kept(bytes@, cap)),
{
    if bytes.len() > cap {
        let head = slice_subrange(bytes, 0, cap);
        assert(head@ =~= bytes@.take(cap as int));
        return result_of(status, bytes.len(), cap, None, text_lossy(head));
    }
    let json = match Json::decode(bytes) {
        Ok(v) => Some(v),
        Err(_) => None,
    };
    result_of(status, bytes.len(), cap, json, text_lossy(bytes))
}

/// No more of a body is kept than the cap allows, and what was cut is not read as JSON.
pub proof fn law_response_within_cap(status: u16, bytes: Seq<u8>, cap: usize)
    ensures
        kept(bytes, cap).len() <= cap,
        shaped(status, bytes, cap).raw_body == lossy_text(kept(bytes, cap)),
        shaped(status, bytes, cap).truncated <==> kept(bytes, cap).len() < bytes.len(),
        shaped(status, bytes, cap).truncated ==> shaped(status, bytes, cap).json is None,
        shaped(status, bytes, cap).status == status,
{
}

/// What the server answered, where it reports no success.
pub open spec fn downstream_error(res: ResultView) -> Option<JsonView> {
    if !res.succeeded() {
        Some(
            JsonView::object().with("statusCode"@, JsonView::number(res.status as u64)).with(
                "body"@,
                match res.json {
                    Some(v) => v,
                    None => JsonView::Text(res.raw_body),
                },
            ),
        )
    } else {
        None
    }
}

/// The envelope of a result: what was called, how it went, and what came back.
pub open spec fn envelope(call: crate::call::CallView, res: ResultView) -> JsonView {
    let head = JsonView::object().with("operation"@, JsonView::Text(call.operation.name())).with(
        "method"@,
        JsonView::Text(call.method.name()),
    ).with("path"@, JsonView::Text(call.display_path)).with(
        "statusCode"@,
        JsonView::number(res.status as u64),
    ).with("ok"@, JsonView::Bool(res.succeeded())).with(
        "truncated"@,
        JsonView::Bool(res.truncated),
    );
    (match res.json {
        Some(v) => head.with("response"@, v),
        None => head.with("responseText"@, JsonView::Text(res.raw_body)),
    }).with_some("downstreamError"@, downstream_error(res))
}

/// Builds the envelope of a result. The configuration plays no part in it, its
/// credentials least of all.
pub fn build_envelope(_spec: &ElasticsearchBackendSpec, call: &EsRestCall, res: &EsResult) -> (r:
    Json)
    ensures
        r@ == envelope(call@, res@),
        res@.wf() ==> r@.wf(),
{
    let head = Json::object().with("operation", Json::text(call.operation.as_str())).with(
        "method",
        Json::text(call.method.as_str()),
    ).with("path", Json::text(call.display_path.as_str())).with(
        "statusCode",
        Json::number(res.status as u64),
    ).with("ok", Json::Bool(200 <= res.status && res.status < 300)).with(
        "truncated",
        Json::Bool(res.truncated),
    );
    let env = match &res.json {
        Some(v) => head.with("response", v.clone()),
        None => head.with("responseText", Json::text(res.raw_body.as_str())),
    };
    if res.status < 200 || res.status >= 300 {
        let body = match &res.json {
            Some(v) => v.clone(),
            None => Json::text(res.raw_body.as_str()),
        };
        env.with(
            "downstreamError",
            Json::object().with("statusCode", Json::number(res.status as u64)).with("body", body),
        )
    } else {
        env
    }
}

/// The hits of a search.
pub open spec fn hits_of(body: JsonView) -> Seq<JsonView> {
    match body.get("hits"@) {
        Some(h) => match h.get_array("hits"@) {
            Some(items) => items,
            None => Seq::empty(),
        },
        None => Seq::empty(),
    }
}

/// A copy of a list of values.
fn clone_list(items: &Vec<Json>) -> (r: Vec<Json>)
    ensures
        crate::json::values(r@) == crate::json::values(items@),
{
    broadcast use crate::json::group_json_views;

    let ghost all = crate::json::values(items@);
    let mut out: Vec<Json> = Vec::new();
    let mut i: usize = 0;
    while i < items.len()
        invariant
            i <= items@.len(),
            all == crate::json::values(items@),
            crate::json::values(out@) == all.take(i as int),
        decreases items@.len() - i,
    {
        proof {
            assert(all.take(i + 1) =~= all.take(i as int).push(all[i as int]));
        }
        out.push(items[i].clone());
        i += 1;
    }
    assert(all.take(i as int) =~= all);
    out
}

/// The hits of a search; none where the body holds no list of them.
pub fn search_hits(body: &Json) -> (r: Vec<Json>)
    ensures
        crate::json::values(r@) == hits_of(body@),
{
    if let Some(h) = body.get("hits") {
        if let Some(items) = h.get_array("hits") {
            return clone_list(items);
        }
    }
    let none: Vec<Json> = Vec::new();
    assert(crate::json::values(none@) =~= Seq::<JsonView>::empty());
    none
}

/// What stands in a value at the end of a path of keys.
pub open spec fn at_path(root: JsonView, path: Seq<Seq<char>>) -> Option<JsonView>
    decreases path.len(),
{
    if path.len() == 0 {
        Some(root)
    } else {
        match root.get(path[0]) {
            Some(v) => at_path(v, path.drop_first()),
            None => None,
        }
    }
}

/// What stands in a value at the end of a dotted path.
pub fn dot_path<'a>(root: &'a Json, path: &str) -> (r: Option<&'a Json>)
    ensures
        crate::json::opt_json(r) == at_path(root@, crate::text::segments(path@)),
{
    let parts = split_path(path);
    let ghost all = crate::text::segments(path@);
    let mut cur: &'a Json = root;
    let mut i: usize = 0;
    proof {
        assert(all.skip(0) =~= all);
    }
    while i < parts.len()
        invariant
            i <= parts@.len(),
            all == crate::text::strings(parts@),
            all == crate::text::segments(path@),
            at_path(root@, all) == at_path(cur@, all.skip(i as int)),
        decreases parts@.len() - i,
    {
        proof {
            assert(all.skip(i as int)[0] == parts@[i as int]@);
            assert(all.skip(i as int).drop_first() =~= all.skip(i + 1));
        }
        match cur.get(parts[i].as_str()) {
            Some(next) => {
                cur = next;
            },
            None => {
                return None;
            },
        }
        i += 1;
    }
    Some(cur)
}

/// The text in the source of a hit at the end of a dotted path.
pub open spec fn source_text(hit: JsonView, path: Seq<char>) -> Option<Seq<char>> {
    match hit.get("_source"@) {
        Some(s) => match at_path(s, crate::text::segments(path)) {
            Some(v) => v.as_text(),
            None => None,
        },
        None => None,
    }
}

/// The text in the source of a hit at the end of a dotted path; nothing where there
/// is no such place or no text at it.
pub fn source_string(hit: &Json, path: &str) -> (r: Option<String>)
    ensures
        crate::text::opt_string(r) == source_text(hit@, path@),
{
    match hit.get("_source") {
        Some(s) => match dot_path(s, path) {
            Some(v) => match v.as_str() {
                Some(t) => Some(t.to_owned()),
                None => None,
            },
            None => None,
        },
        None => None,
    }
}

/// What is kept of a body is its beginning: all of it within the cap, and else as much as
/// the cap allows.
pub proof fn law_body_is_cut_at_the_cap(bytes: Seq<u8>, cap: usize)
    ensures
        bytes.len() <= cap ==> kept(bytes, cap) == bytes,
        bytes.len() > cap ==> kept(bytes, cap).len() == cap,
        forall|i: int|
            0 <= i < kept(bytes, cap).len() ==> #[trigger] kept(bytes, cap)[i] == bytes[i],
{
}

/// A response has the status that the server gave. One within the cap is not marked as
/// cut, and has a JSON value exactly where its bytes read as one, which is that value.
/// One over the cap is marked and has none. Either has the text of what was kept.
pub proof fn law_response_is_what_the_server_sent(status: u16, bytes: Seq<u8>, cap: usize)
    ensures
        ({
            let r = shaped(status, bytes, cap);
            &&& r.status == status
            &&& r.raw_body == lossy_text(kept(bytes, cap))
            &&& bytes.len() <= cap ==> !r.truncated && match crate::wire::json_decode(bytes) {
                Ok(v) => r.json == Some(v),
                Err(_) => r.json is None,
            }
            &&& bytes.len() > cap ==> r.truncated && r.json is None
        }),
{
}

/// The keys of an envelope differ.
proof fn lemma_envelope_names()
    ensures
        "operation"@.len() == 9 && "operation"@[0] == 'o' && "method"@.len() == 6,
        "path"@.len() == 4 && "statusCode"@.len() == 10 && "ok"@.len() == 2,
        "truncated"@.len() == 9 && "truncated"@[0] == 't' && "response"@.len() == 8,
        "responseText"@.len() == 12 && "downstreamError"@.len() == 15 && "body"@.len() == 4,
{
    reveal_strlit("operation");
    reveal_strlit("method");
    reveal_strlit("path");
    reveal_strlit("statusCode");
    reveal_strlit("ok");
    reveal_strlit("truncated");
    reveal_strlit("response");
    reveal_strlit("responseText");
    reveal_strlit("downstreamError");
    reveal_strlit("body");
}

/// An envelope tells the call by its operation, its method and the path that is shown,
/// and the response by its status, whether it was a success, and whether it was cut. The
/// response itself is the JSON value, or else the text. But for an error nothing else is in
/// it.
pub proof fn law_envelope_tells_call_and_response(
    call: crate::call::CallView,
    res: ResultView,
    key: Seq<char>,
)
    ensures
        ({
            let env = envelope(call, res);
            &&& env.get("operation"@) == Some(JsonView::Text(call.operation.name()))
            &&& env.get("method"@) == Some(JsonView::Text(call.method.name()))
            &&& env.get("path"@) == Some(JsonView::Text(call.display_path))
            &&& env.get("statusCode"@) == Some(JsonView::number(res.status as u64))
            &&& env.get("ok"@) == Some(JsonView::Bool(200 <= res.status < 300))
            &&& env.get("truncated"@) == Some(JsonView::Bool(res.truncated))
            &&& env.get("response"@) == res.json
            &&& res.json is Some ==> env.get("responseText"@) is None
            &&& res.json is None ==> env.get("responseText"@) == Some(JsonView::Text(res.raw_body))
            &&& env.get(key) is Some ==> key == "operation"@ || key == "method"@ || key == "path"@
                || key == "statusCode"@ || key == "ok"@ || key == "truncated"@ || key == "response"@
                || key == "responseText"@ || key == "downstreamError"@
        }),
{
    broadcast use crate::json::lemma_get_with;

    lemma_envelope_names();
}

/// Where the server reports no success, and only there, the envelope has an error that
/// holds the status and what the server said, as JSON or else as text, and nothing else.
pub proof fn law_envelope_reports_what_the_server_refused(
    call: crate::call::CallView,
    res: ResultView,
    key: Seq<char>,
)
    ensures
        200 <= res.status < 300 ==> envelope(call, res).get("downstreamError"@) is None,
        !(200 <= res.status < 300) ==> {
            &&& envelope(call, res).get("downstreamError"@) matches Some(error)
            &&& error.get("statusCode"@) == Some(JsonView::number(res.status as u64))
            &&& res.json matches Some(v) ==> error.get("body"@) == Some(v)
            &&& res.json is None ==> error.get("body"@) == Some(JsonView::Text(res.raw_body))
            &&& error.get(key) is Some ==> key == "statusCode"@ || key == "body"@
        },
{
    broadcast use crate::json::lemma_get_with;

    lemma_envelope_names();
}

/// The hits of a search are the items of the list `hits` in its object `hits`. A body
/// without that list has none.
pub proof fn law_hits_stand_in_the_inner_list(body: JsonView, outer: JsonView)
    ensures
        body.get("hits"@) == Some(outer) ==> match outer.get("hits"@) {
            Some(JsonView::Array(items)) => hits_of(body) == items,
            _ => hits_of(body).len() == 0,
        },
        body.get("hits"@) is None ==> hits_of(body).len() == 0,
{
}

/// A path leads through a value key by key: the way along two paths is the way along the
/// first and from there along the second, the way along one key is to what stands there,
/// and the way along none is to the value itself.
pub proof fn law_path_leads_key_by_key(
    root: JsonView,
    a: Seq<Seq<char>>,
    b: Seq<Seq<char>>,
    key: Seq<char>,
)
    ensures
        at_path(root, Seq::empty()) == Some(root),
        at_path(root, seq![key]) == root.get(key),
        at_path(root, a + b) == (match at_path(root, a) {
            Some(v) => at_path(v, b),
            None => None,
        }),
    decreases a.len(),
{
    assert(seq![key].drop_first() =~= Seq::<Seq<char>>::empty());
    reveal_with_fuel(at_path, 2);
    if a.len() == 0 {
        assert(a + b =~= b);
    } else {
        assert((a + b).drop_first() =~= a.drop_first() + b);
        assert((a + b)[0] == a[0]);
        if let Some(v) = root.get(a[0]) {
            law_path_leads_key_by_key(v, a.drop_first(), b, key);
        }
    }
}

/// The text of a hit at a dotted path is the text that stands in its source at the end of
/// the path. There is none where the hit has no source, where the path leads nowhere, or
/// where it leads to something else than a text.
pub proof fn law_text_of_a_hit(hit: JsonView, path: Seq<char>)
    ensures
        match hit.get("_source"@) {
            None => source_text(hit, path) is None,
            Some(source) => match at_path(source, crate::text::segments(path)) {
                Some(JsonView::Text(t)) => source_text(hit, path) == Some(t),
                _ => source_text(hit, path) is None,
            },
        },
{
}

} // verus!
