//! The REST call of each operation.
//!
//! A call is planned first: method, path, query string, and the values of its
//! body. The plan is then written out, which turns the values into bytes, and
//! held against the cap on the size of a request.

use vstd::prelude::*;
use vstd::slice::slice_to_vec;
use vstd::string::StringExecFns;
use vstd::utf8::encode_utf8;

use crate::body::{build_knn_body, build_search_body};
use crate::config::{
    ElasticsearchBackendSpec, EsCompletionConfig, EsOperation, ListQueryConfig,
};
use crate::encode::{checked_doc_id, encode_path_segment};
use crate::json::{Json, JsonView};
use crate::ndjson::{plan_bulk, plan_msearch, write_lines};
use crate::scripting::check_scripting;
use crate::text::{borrowed, decimal_text, join, same_text};

verus! {

/// The methods of a call.
#[derive(Debug, Clone, Copy, PartialEq, Eq, Structural)]
pub enum Method {
    Get,
    Post,
    Put,
    Delete,
}

impl Method {
    /// The name of the method on the wire.
    pub open spec fn name(self) -> Seq<char> {
        match self {
            Method::Get => "GET"@,
            Method::Post => "POST"@,
            Method::Put => "PUT"@,
            Method::Delete => "DELETE"@,
        }
    }

    /// The name of the method on the wire.
    pub fn as_str(self) -> (r: &'static str)
        ensures
            r@ == self.name(),
    {
        match self {
            Method::Get => "GET",
            Method::Post => "POST",
            Method::Put => "PUT",
            Method::Delete => "DELETE",
        }
    }
}

/// What a planned call sends.
#[derive(Debug, PartialEq, Eq)]
pub enum Payload {
    /// No body.
    Empty,
    /// One JSON value.
    Value(Json),
    /// Several JSON values, one to a line.
    Lines(Vec<Json>),
}

/// What a payload holds.
pub enum PayloadView {
    Empty,
    Value(JsonView),
    Lines(Seq<JsonView>),
}

impl View for Payload {
    type V = PayloadView;

    open spec fn view(&self) -> PayloadView {
        match self {
            Payload::Empty => PayloadView::Empty,
            Payload::Value(j) => PayloadView::Value(j@),
            Payload::Lines(l) => PayloadView::Lines(crate::json::values(l@)),
        }
    }
}

impl PayloadView {
    /// Every value is a valid one.
    pub open spec fn wf(self) -> bool {
        match self {
            PayloadView::Empty => true,
            PayloadView::Value(j) => j.wf(),
            PayloadView::Lines(l) => forall|i: int| 0 <= i < l.len() ==> (#[trigger] l[i]).wf(),
        }
    }

    /// The bytes that are sent.
    pub open spec fn bytes(self) -> Option<Seq<u8>> {
        match self {
            PayloadView::Empty => None,
            PayloadView::Value(j) => Some(encode_utf8(crate::wire::json_text(j))),
            PayloadView::Lines(l) => Some(encode_utf8(crate::ndjson::ndjson(l))),
        }
    }

    /// The content type that goes with the payload.
    pub open spec fn content_type(self) -> Seq<char> {
        match self {
            PayloadView::Lines(_) => "application/x-ndjson"@,
            _ => "application/json"@,
        }
    }
}

/// A planned call.
#[derive(Debug, PartialEq, Eq)]
pub struct CallPlan {
    pub method: Method,
    /// The path behind the base URL, with its leading slash.
    pub path: String,
    /// The query string, without the question mark.
    pub query: Option<String>,
    pub payload: Payload,
    pub operation: EsOperation,
    /// The path as it is shown.
    pub display_path: String,
}

/// What a plan says.
pub struct PlanView {
    pub method: Method,
    pub path: Seq<char>,
    pub query: Option<Seq<char>>,
    pub payload: PayloadView,
    pub operation: EsOperation,
    pub display_path: Seq<char>,
}

impl View for CallPlan {
    type V = PlanView;

    open spec fn view(&self) -> PlanView {
        PlanView {
            method: self.method,
            path: self.path@,
            query: crate::text::opt_string(self.query),
            payload: self.payload@,
            operation: self.operation,
            display_path: self.display_path@,
        }
    }
}

/// A call that is ready to be sent. It holds no credentials.
#[derive(Debug, PartialEq, Eq)]
pub struct EsRestCall {
    pub method: Method,
    /// The path behind the base URL, with its leading slash.
    pub path: String,
    /// The query string, without the question mark.
    pub query: Option<String>,
    /// The bytes of the body, if there is one.
    pub body: Option<Vec<u8>>,
    pub content_type: &'static str,
    pub operation: EsOperation,
    /// The path as it is shown.
    pub display_path: String,
}

/// What a call says.
pub struct CallView {
    pub method: Method,
    pub path: Seq<char>,
    pub query: Option<Seq<char>>,
    pub body: Option<Seq<u8>>,
    pub content_type: Seq<char>,
    pub operation: EsOperation,
    pub display_path: Seq<char>,
}

impl View for EsRestCall {
    type V = CallView;

    open spec fn view(&self) -> CallView {
        CallView {
            method: self.method,
            path: self.path@,
            query: crate::text::opt_string(self.query),
            body: match self.body {
                Some(b) => Some(b@),
                None => None,
            },
            content_type: self.content_type@,
            operation: self.operation,
            display_path: self.display_path@,
        }
    }
}

/// What a planning comes to.
pub open spec fn plan_result(r: Result<CallPlan, String>) -> Result<PlanView, Seq<char>> {
    match r {
        Ok(p) => Ok(p@),
        Err(m) => Err(m@),
    }
}

/// What building a call comes to.
pub open spec fn call_result(r: Result<EsRestCall, String>) -> Result<CallView, Seq<char>> {
    match r {
        Ok(c) => Ok(c@),
        Err(m) => Err(m@),
    }
}

/// A planned call written out.
pub open spec fn written(p: PlanView) -> CallView {
    CallView {
        method: p.method,
        path: p.path,
        query: p.query,
        body: p.payload.bytes(),
        content_type: p.payload.content_type(),
        operation: p.operation,
        display_path: p.display_path,
    }
}

/// Writes a planned call out.
pub fn write_call(plan: CallPlan) -> (r: EsRestCall)
    requires
        plan@.payload.wf(),
    ensures
        r@ == written(plan@),
{
    let ghost view = plan@.payload;
    let content_type = match &plan.payload {
        Payload::Lines(_) => "application/x-ndjson",
        _ => "application/json",
    };
    let body: Option<Vec<u8>> = match &plan.payload {
        Payload::Empty => None,
        Payload::Value(j) => Some(slice_to_vec(j.encode().as_str().as_bytes())),
        Payload::Lines(l) => {
            proof {
                assert forall|i: int| 0 <= i < l@.len() implies (#[trigger] l@[i])@.wf() by {
                    assert(crate::json::values(l@)[i] == l@[i]@);
                }
            }
            Some(slice_to_vec(write_lines(l).as_str().as_bytes()))
        },
    };
    EsRestCall {
        method: plan.method,
        path: plan.path,
        query: plan.query,
        body,
        content_type,
        operation: plan.operation,
        display_path: plan.display_path,
    }
}

/// The path of an index with what follows it.
pub open spec fn index_path(index: Seq<char>, tail: Seq<char>) -> Seq<char> {
    "/"@ + index + tail
}

/// The path of a document.
pub open spec fn doc_path(index: Seq<char>, id: Seq<char>) -> Seq<char> {
    "/"@ + index + "/_doc/"@ + id
}

fn path_of(index: &str, tail: &str) -> (r: String)
    ensures
        r@ == index_path(index@, tail@),
{
    "/".to_owned().concat(index).concat(tail)
}

fn path_of_doc(index: &str, id: &str) -> (r: String)
    ensures
        r@ == doc_path(index@, id@),
{
    "/".to_owned().concat(index).concat("/_doc/").concat(id)
}

/// A call that posts one value to an index.
pub open spec fn post_plan(
    index: Seq<char>,
    tail: Seq<char>,
    body: JsonView,
    operation: EsOperation,
) -> PlanView {
    PlanView {
        method: Method::Post,
        path: index_path(index, tail),
        query: None,
        payload: PayloadView::Value(body),
        operation,
        display_path: index_path(index, tail),
    }
}

/// Plans a call that posts one value to an index.
fn post(index: &str, tail: &str, body: Json, operation: EsOperation) -> (r: CallPlan)
    ensures
        r@ == post_plan(index@, tail@, body@, operation),
{
    CallPlan {
        method: Method::Post,
        path: path_of(index, tail),
        query: None,
        payload: Payload::Value(body),
        operation,
        display_path: path_of(index, tail),
    }
}

/// The index that the arguments of a call resolve to.
pub open spec fn call_index(spec: ElasticsearchBackendSpec, args: JsonView) -> Result<
    Seq<char>,
    Seq<char>,
> {
    spec.resolved_index(args.get_text("index"@))
}

/// A search, or a count where the page plays no part.
pub open spec fn search_plan(
    spec: ElasticsearchBackendSpec,
    args: JsonView,
    tail: Seq<char>,
    include_paging: bool,
) -> Result<PlanView, Seq<char>> {
    match call_index(spec, args) {
        Err(m) => Err(m),
        Ok(index) => match crate::body::search_body(spec, args, include_paging) {
            Err(m) => Err(m),
            Ok(body) => Ok(post_plan(index, tail, body, spec.operation)),
        },
    }
}

fn plan_search(
    spec: &ElasticsearchBackendSpec,
    args: &Json,
    tail: &str,
    include_paging: bool,
) -> (r: Result<CallPlan, String>)
    ensures
        plan_result(r) == search_plan(*spec, args@, tail@, include_paging),
        r matches Ok(p) ==> (args@.wf() ==> p@.payload.wf()),
{
    let index = match spec.resolve_index(args.get_str("index")) {
        Ok(index) => index,
        Err(m) => {
            return Err(m);
        },
    };
    match build_search_body(spec, args, include_paging) {
        Err(m) => Err(m),
        Ok(body) => {
            proof {
                if args@.wf() {
                    crate::body::lemma_search_wf(*spec, args@, include_paging);
                }
            }
            Ok(post(index.as_str(), tail, body, spec.operation))
        },
    }
}

/// The name of a truth value.
pub open spec fn bool_name(b: bool) -> Seq<char> {
    if b {
        "true"@
    } else {
        "false"@
    }
}

/// The names among some values, each encoded for a query string.
pub open spec fn encoded_names(items: Seq<JsonView>) -> Seq<Seq<char>>
    decreases items.len(),
{
    if items.len() == 0 {
        Seq::empty()
    } else {
        match items.last() {
            JsonView::Text(s) => encoded_names(items.drop_last()).push(
                crate::encode::percent_encoded(encode_utf8(s)),
            ),
            _ => encoded_names(items.drop_last()),
        }
    }
}

/// The query string that picks the fields of a document: all or none of them, or
/// those that a list names.
pub open spec fn source_choice(args: JsonView) -> Option<Seq<char>> {
    match args.get("source"@) {
        Some(JsonView::Bool(b)) => Some("_source="@ + bool_name(b)),
        Some(JsonView::Array(items)) => {
            let names = encoded_names(items);
            if names.len() == 0 {
                None
            } else {
                Some("_source="@ + crate::text::joined(names, ","@))
            }
        },
        _ => None,
    }
}

/// The query string that picks the fields of a document.
pub fn source_query(args: &Json) -> (r: Option<String>)
    ensures
        crate::text::opt_string(r) == source_choice(args@),
{
    broadcast use crate::json::group_json_views;

    match args.get("source") {
        Some(Json::Bool(b)) => Some(
            "_source=".to_owned().concat(
                if *b {
                    "true"
                } else {
                    "false"
                },
            ),
        ),
        Some(Json::Array(items)) => {
            let ghost all = crate::json::values(items@);
            assert(args@.get("source"@) == Some(JsonView::Array(all)));
            let mut names: Vec<String> = Vec::new();
            let mut i: usize = 0;
            while i < items.len()
                invariant
                    i <= items@.len(),
                    all == crate::json::values(items@),
                    crate::text::strings(names@) == encoded_names(all.take(i as int)),
                decreases items@.len() - i,
            {
                assert(all.take(i + 1).drop_last() =~= all.take(i as int));
                assert(all.take(i + 1).last() == items@[i as int]@);
                if let Json::Text(s) = &items[i] {
                    let name = encode_path_segment(s.as_str());
                    proof {
                        crate::text::lemma_strings_push(names@, name);
                    }
                    names.push(name);
                }
                i += 1;
            }
            assert(all.take(i as int) =~= all);
            if names.is_empty() {
                None
            } else {
                Some("_source=".to_owned().concat(join(&names, ",").as_str()))
            }
        },
        _ => None,
    }
}

/// The refresh setting of a call.
pub open spec fn refresh_choice(args: JsonView) -> Result<Option<Seq<char>>, Seq<char>> {
    match args.get("refresh"@) {
        None => Ok(None),
        Some(JsonView::Text(s)) => if s == "true"@ || s == "false"@ || s == "wait_for"@ {
            Ok(Some(s))
        } else {
            Err("`refresh` must be \"true\", \"false\", or \"wait_for\""@)
        },
        Some(_) => Err("`refresh` must be a string"@),
    }
}

/// The refresh setting of a call, or why it is none.
pub fn refresh_param(args: &Json) -> (r: Result<Option<&str>, String>)
    ensures
        match r {
            Ok(o) => refresh_choice(args@) == Ok::<Option<Seq<char>>, Seq<char>>(
                crate::text::opt_str(o),
            ),
            Err(m) => refresh_choice(args@) == Err::<Option<Seq<char>>, Seq<char>>(m@),
        },
{
    match args.get("refresh") {
        None => Ok(None),
        Some(Json::Text(s)) => {
            let s = s.as_str();
            if same_text(s, "true") || same_text(s, "false") || same_text(s, "wait_for") {
                Ok(Some(s))
            } else {
                Err("`refresh` must be \"true\", \"false\", or \"wait_for\"".to_owned())
            }
        },
        Some(_) => Err("`refresh` must be a string".to_owned()),
    }
}

/// The query string of a refresh setting.
pub open spec fn refresh_query(choice: Option<Seq<char>>) -> Option<Seq<char>> {
    match choice {
        Some(s) => Some("refresh="@ + s),
        None => None,
    }
}

fn query_of_refresh(choice: Option<&str>) -> (r: Option<String>)
    ensures
        crate::text::opt_string(r) == refresh_query(crate::text::opt_str(choice)),
{
    match choice {
        Some(s) => Some("refresh=".to_owned().concat(s)),
        None => None,
    }
}

/// The document id of a call that needs one: as it is given, and as a path segment.
pub open spec fn required_id(args: JsonView) -> Result<(Seq<char>, Seq<char>), Seq<char>> {
    match args.get_text("id"@) {
        None => Err("missing required `id` argument"@),
        Some(id) => match crate::encode::doc_id(id) {
            Err(m) => Err(m),
            Ok(encoded) => Ok((id, encoded)),
        },
    }
}

fn id_of(args: &Json) -> (r: Result<(&str, String), String>)
    ensures
        match r {
            Ok(p) => required_id(args@) == Ok::<(Seq<char>, Seq<char>), Seq<char>>((p.0@, p.1@)),
            Err(m) => required_id(args@) == Err::<(Seq<char>, Seq<char>), Seq<char>>(m@),
        },
{
    match args.get_str("id") {
        None => Err("missing required `id` argument".to_owned()),
        Some(id) => match checked_doc_id(id) {
            Err(m) => Err(m),
            Ok(encoded) => Ok((id, encoded)),
        },
    }
}

/// Reading one document.
pub open spec fn get_plan(spec: ElasticsearchBackendSpec, args: JsonView) -> Result<
    PlanView,
    Seq<char>,
> {
    match call_index(spec, args) {
        Err(m) => Err(m),
        Ok(index) => match required_id(args) {
            Err(m) => Err(m),
            Ok(id) => Ok(
                PlanView {
                    method: Method::Get,
                    path: doc_path(index, id.1),
                    query: source_choice(args),
                    payload: PayloadView::Empty,
                    operation: spec.operation,
                    display_path: doc_path(index, id.0),
                },
            ),
        },
    }
}

fn plan_get(spec: &ElasticsearchBackendSpec, args: &Json) -> (r: Result<CallPlan, String>)
    ensures
        plan_result(r) == get_plan(*spec, args@),
        r matches Ok(p) ==> p@.payload.wf(),
{
    let index = match spec.resolve_index(args.get_str("index")) {
        Ok(index) => index,
        Err(m) => {
            return Err(m);
        },
    };
    match id_of(args) {
        Err(m) => Err(m),
        Ok((id, encoded)) => Ok(
            CallPlan {
                method: Method::Get,
                path: path_of_doc(index.as_str(), encoded.as_str()),
                query: source_query(args),
                payload: Payload::Empty,
                operation: spec.operation,
                display_path: path_of_doc(index.as_str(), id),
            },
        ),
    }
}

/// The kind of a write: whether the document may be there already.
pub open spec fn op_type(args: JsonView) -> Result<Option<Seq<char>>, Seq<char>> {
    match args.get_text("op_type"@) {
        None => Ok(None),
        Some(t) => if t == "index"@ || t == "create"@ {
            Ok(Some(t))
        } else {
            Err("`op_type` must be `index` or `create`"@)
        },
    }
}

/// The query string of a write.
pub open spec fn write_query(refresh: Option<Seq<char>>, kind: Option<Seq<char>>) -> Option<
    Seq<char>,
> {
    match (refresh, kind) {
        (None, None) => None,
        (Some(r), None) => Some("refresh="@ + r),
        (None, Some(t)) => Some("op_type="@ + t),
        (Some(r), Some(t)) => Some("refresh="@ + r + "&"@ + "op_type="@ + t),
    }
}

fn query_of_write(refresh: Option<&str>, kind: Option<&str>) -> (r: Option<String>)
    ensures
        crate::text::opt_string(r) == write_query(
            crate::text::opt_str(refresh),
            crate::text::opt_str(kind),
        ),
{
    match refresh {
        None => match kind {
            None => None,
            Some(t) => Some("op_type=".to_owned().concat(t)),
        },
        Some(r) => {
            let first = "refresh=".to_owned().concat(r);
            match kind {
                None => Some(first),
                Some(t) => Some(first.concat("&").concat("op_type=").concat(t)),
            }
        },
    }
}

/// Where a document is written: at its id, or at one that the server picks.
pub open spec fn write_target(index: Seq<char>, args: JsonView) -> Result<
    (Method, Seq<char>, Seq<char>),
    Seq<char>,
> {
    match args.get_text("id"@) {
        Some(id) => match crate::encode::doc_id(id) {
            Err(m) => Err(m),
            Ok(encoded) => Ok((Method::Put, doc_path(index, encoded), doc_path(index, id))),
        },
        None => Ok((Method::Post, index_path(index, "/_doc"@), index_path(index, "/_doc"@))),
    }
}

/// Writing one document.
pub open spec fn index_plan(spec: ElasticsearchBackendSpec, args: JsonView) -> Result<
    PlanView,
    Seq<char>,
> {
    match call_index(spec, args) {
        Err(m) => Err(m),
        Ok(index) => match args.get("document"@) {
            Some(JsonView::Object(fields)) => match refresh_choice(args) {
                Err(m) => Err(m),
                Ok(refresh) => match op_type(args) {
                    Err(m) => Err(m),
                    Ok(kind) => match write_target(index, args) {
                        Err(m) => Err(m),
                        Ok(target) => Ok(
                            PlanView {
                                method: target.0,
                                path: target.1,
                                query: write_query(refresh, kind),
                                payload: PayloadView::Value(JsonView::Object(fields)),
                                operation: spec.operation,
                                display_path: target.2,
                            },
                        ),
                    },
                },
            },
            _ => Err("missing required `document` object argument"@),
        },
    }
}

fn plan_index(spec: &ElasticsearchBackendSpec, args: &Json) -> (r: Result<CallPlan, String>)
    ensures
        plan_result(r) == index_plan(*spec, args@),
        r matches Ok(p) ==> (args@.wf() ==> p@.payload.wf()),
{
    broadcast use {crate::json::group_json_views, crate::json::lemma_get_wf};

    let index = match spec.resolve_index(args.get_str("index")) {
        Ok(index) => index,
        Err(m) => {
            return Err(m);
        },
    };
    let document = match args.get("document") {
        Some(d) if d.is_object() => d,
        _ => {
            return Err("missing required `document` object argument".to_owned());
        },
    };
    let refresh = match refresh_param(args) {
        Ok(o) => o,
        Err(m) => {
            return Err(m);
        },
    };
    let kind = args.get_str("op_type");
    if let Some(t) = kind {
        if !same_text(t, "index") && !same_text(t, "create") {
            return Err("`op_type` must be `index` or `create`".to_owned());
        }
    }
    let (method, path, display_path) = match args.get_str("id") {
        Some(id) => match checked_doc_id(id) {
            Err(m) => {
                return Err(m);
            },
            Ok(encoded) => (
                Method::Put,
                path_of_doc(index.as_str(), encoded.as_str()),
                path_of_doc(index.as_str(), id),
            ),
        },
        None => (
            Method::Post,
            path_of(index.as_str(), "/_doc"),
            path_of(index.as_str(), "/_doc"),
        ),
    };
    Ok(
        CallPlan {
            method,
            path,
            query: query_of_write(refresh, kind),
            payload: Payload::Value(document.clone()),
            operation: spec.operation,
            display_path,
        },
    )
}

/// Deleting one document.
pub open spec fn delete_plan(spec: ElasticsearchBackendSpec, args: JsonView) -> Result<
    PlanView,
    Seq<char>,
> {
    match call_index(spec, args) {
        Err(m) => Err(m),
        Ok(index) => match required_id(args) {
            Err(m) => Err(m),
            Ok(id) => match refresh_choice(args) {
                Err(m) => Err(m),
                Ok(refresh) => Ok(
                    PlanView {
                        method: Method::Delete,
                        path: doc_path(index, id.1),
                        query: refresh_query(refresh),
                        payload: PayloadView::Empty,
                        operation: spec.operation,
                        display_path: doc_path(index, id.0),
                    },
                ),
            },
        },
    }
}

fn plan_delete(spec: &ElasticsearchBackendSpec, args: &Json) -> (r: Result<CallPlan, String>)
    ensures
        plan_result(r) == delete_plan(*spec, args@),
        r matches Ok(p) ==> p@.payload.wf(),
{
    let index = match spec.resolve_index(args.get_str("index")) {
        Ok(index) => index,
        Err(m) => {
            return Err(m);
        },
    };
    let (id, encoded) = match id_of(args) {
        Ok(pair) => pair,
        Err(m) => {
            return Err(m);
        },
    };
    match refresh_param(args) {
        Err(m) => Err(m),
        Ok(refresh) => Ok(
            CallPlan {
                method: Method::Delete,
                path: path_of_doc(index.as_str(), encoded.as_str()),
                query: query_of_refresh(refresh),
                payload: Payload::Empty,
                operation: spec.operation,
                display_path: path_of_doc(index.as_str(), id),
            },
        ),
    }
}

/// Several writes in one call. An action that names no index gets the one of the call.
pub open spec fn bulk_plan(spec: ElasticsearchBackendSpec, args: JsonView) -> Result<
    PlanView,
    Seq<char>,
> {
    match call_index(spec, args) {
        Err(m) => Err(m),
        Ok(index) => match args.get_array("operations"@) {
            None => Err("missing required `operations` array argument"@),
            Some(ops) => match crate::ndjson::bulk_lines(spec, Some(index), ops, 0, false) {
                Err(m) => Err(m),
                Ok(lines) => match refresh_choice(args) {
                    Err(m) => Err(m),
                    Ok(refresh) => Ok(
                        PlanView {
                            method: Method::Post,
                            path: index_path(index, "/_bulk"@),
                            query: refresh_query(refresh),
                            payload: PayloadView::Lines(lines),
                            operation: spec.operation,
                            display_path: index_path(index, "/_bulk"@),
                        },
                    ),
                },
            },
        },
    }
}

fn plan_bulk_call(spec: &ElasticsearchBackendSpec, args: &Json) -> (r: Result<CallPlan, String>)
    ensures
        plan_result(r) == bulk_plan(*spec, args@),
        r matches Ok(p) ==> (args@.wf() ==> p@.payload.wf()),
{
    let index = match spec.resolve_index(args.get_str("index")) {
        Ok(index) => index,
        Err(m) => {
            return Err(m);
        },
    };
    let operations = match args.get_array("operations") {
        Some(items) => items,
        None => {
            return Err("missing required `operations` array argument".to_owned());
        },
    };
    let lines = match plan_bulk(spec, operations, Some(index.as_str())) {
        Ok(lines) => lines,
        Err(m) => {
            return Err(m);
        },
    };
    proof {
        if args@.wf() {
            crate::json::lemma_get_wf(args@, "operations"@);
            crate::ndjson::lemma_bulk_wf(*spec, Some(index@), crate::json::values(operations@));
        }
    }
    match refresh_param(args) {
        Err(m) => Err(m),
        Ok(refresh) => Ok(
            CallPlan {
                method: Method::Post,
                path: path_of(index.as_str(), "/_bulk"),
                query: query_of_refresh(refresh),
                payload: Payload::Lines(lines),
                operation: spec.operation,
                display_path: path_of(index.as_str(), "/_bulk"),
            },
        ),
    }
}

/// A vector search.
pub open spec fn knn_plan(spec: ElasticsearchBackendSpec, args: JsonView) -> Result<
    PlanView,
    Seq<char>,
> {
    match call_index(spec, args) {
        Err(m) => Err(m),
        Ok(index) => match spec.knn {
            None => Err("knn operation requires a `knn` config block"@),
            Some(knn) => match crate::body::knn_body(spec, knn, args) {
                Err(m) => Err(m),
                Ok(body) => Ok(post_plan(index, "/_search"@, body, spec.operation)),
            },
        },
    }
}

fn plan_knn(spec: &ElasticsearchBackendSpec, args: &Json) -> (r: Result<CallPlan, String>)
    requires
        args@.wf(),
    ensures
        plan_result(r) == knn_plan(*spec, args@),
        r matches Ok(p) ==> (spec.wf() ==> p@.payload.wf()),
{
    let index = match spec.resolve_index(args.get_str("index")) {
        Ok(index) => index,
        Err(m) => {
            return Err(m);
        },
    };
    match &spec.knn {
        None => Err("knn operation requires a `knn` config block".to_owned()),
        Some(knn) => match build_knn_body(spec, knn, args) {
            Err(m) => Err(m),
            Ok(body) => Ok(post(index.as_str(), "/_search", body, spec.operation)),
        },
    }
}

/// Several searches in one call.
pub open spec fn msearch_plan(spec: ElasticsearchBackendSpec, args: JsonView) -> Result<
    PlanView,
    Seq<char>,
> {
    match args.get_array("searches"@) {
        None => Err("missing required `searches` array argument"@),
        Some(searches) => if searches.len() == 0 {
            Err("`searches` must not be empty"@)
        } else {
            match crate::ndjson::msearch_lines(spec, searches, 0) {
                Err(m) => Err(m),
                Ok(lines) => Ok(
                    PlanView {
                        method: Method::Post,
                        path: "/_msearch"@,
                        query: None,
                        payload: PayloadView::Lines(lines),
                        operation: spec.operation,
                        display_path: "/_msearch"@,
                    },
                ),
            }
        },
    }
}

fn plan_msearch_call(spec: &ElasticsearchBackendSpec, args: &Json) -> (r: Result<CallPlan, String>)
    ensures
        plan_result(r) == msearch_plan(*spec, args@),
        r matches Ok(p) ==> (args@.wf() ==> p@.payload.wf()),
{
    let searches = match args.get_array("searches") {
        Some(items) => items,
        None => {
            return Err("missing required `searches` array argument".to_owned());
        },
    };
    assert(crate::json::values(searches@).len() == searches@.len());
    if searches.is_empty() {
        return Err("`searches` must not be empty".to_owned());
    }
    match plan_msearch(spec, searches) {
        Err(m) => Err(m),
        Ok(lines) => {
            proof {
                if args@.wf() {
                    crate::json::lemma_get_wf(args@, "searches"@);
                    crate::ndjson::lemma_msearch_wf(*spec, crate::json::values(searches@));
                }
            }
            Ok(
                CallPlan {
                    method: Method::Post,
                    path: "/_msearch".to_owned(),
                    query: None,
                    payload: Payload::Lines(lines),
                    operation: spec.operation,
                    display_path: "/_msearch".to_owned(),
                },
            )
        },
    }
}

/// The call that the configured operation makes of some arguments.
pub open spec fn planned(spec: ElasticsearchBackendSpec, args: JsonView) -> Result<
    PlanView,
    Seq<char>,
> {
    match spec.operation {
        EsOperation::Search => search_plan(spec, args, "/_search"@, true),
        EsOperation::Count => search_plan(spec, args, "/_count"@, false),
        EsOperation::Get => get_plan(spec, args),
        EsOperation::Index => index_plan(spec, args),
        EsOperation::Delete => delete_plan(spec, args),
        EsOperation::Bulk => bulk_plan(spec, args),
        EsOperation::Knn => knn_plan(spec, args),
        EsOperation::Msearch => msearch_plan(spec, args),
    }
}

/// Plans the call of the configured operation. The error is the message for the
/// caller.
pub fn plan_call(spec: &ElasticsearchBackendSpec, args: &Json) -> (r: Result<CallPlan, String>)
    requires
        args@.wf(),
    ensures
        plan_result(r) == planned(*spec, args@),
        r matches Ok(p) ==> (spec.wf() ==> p@.payload.wf()),
{
    match spec.operation {
        EsOperation::Search => plan_search(spec, args, "/_search", true),
        EsOperation::Count => plan_search(spec, args, "/_count", false),
        EsOperation::Get => plan_get(spec, args),
        EsOperation::Index => plan_index(spec, args),
        EsOperation::Delete => plan_delete(spec, args),
        EsOperation::Bulk => plan_bulk_call(spec, args),
        EsOperation::Knn => plan_knn(spec, args),
        EsOperation::Msearch => plan_msearch_call(spec, args),
    }
}

/// A call held against the cap on the size of a request.
pub open spec fn capped(call: CallView, cap: usize) -> Result<CallView, Seq<char>> {
    match call.body {
        Some(b) if b.len() > cap => Err(
            "request body "@ + crate::text::decimal(b.len()) + " bytes exceeds max_request_bytes "@
                + crate::text::decimal(cap as nat),
        ),
        _ => Ok(call),
    }
}

/// Refuses a call whose body is larger than the cap.
pub fn within_cap(call: EsRestCall, cap: usize) -> (r: Result<EsRestCall, String>)
    ensures
        call_result(r) == capped(call@, cap),
        r matches Ok(c) ==> c == call,
{
    if let Some(b) = &call.body {
        if b.len() > cap {
            return Err(
                "request body ".to_owned().concat(decimal_text(b.len() as u128).as_str()).concat(
                    " bytes exceeds max_request_bytes ",
                ).concat(decimal_text(cap as u128).as_str()),
            );
        }
    }
    Ok(call)
}

/// The call of the configured operation, written out and held against the cap.
pub open spec fn built(spec: ElasticsearchBackendSpec, args: JsonView) -> Result<
    CallView,
    Seq<char>,
> {
    match planned(spec, args) {
        Err(m) => Err(m),
        Ok(p) => capped(written(p), spec.max_request_bytes),
    }
}

/// Builds the call of the configured operation. The error is the message for the
/// caller.
pub fn build_call(spec: &ElasticsearchBackendSpec, args: &Json) -> (r: Result<EsRestCall, String>)
    requires
        spec.wf(),
        args@.wf(),
    ensures
        call_result(r) == built(*spec, args@),
{
    match plan_call(spec, args) {
        Err(m) => Err(m),
        Ok(p) => within_cap(write_call(p), spec.max_request_bytes),
    }
}

/// The fields that a listing reads.
pub open spec fn listed_fields(list: ListQueryConfig) -> Seq<JsonView> {
    let uri = seq![JsonView::Text(list.uri_field@)];
    let name = match list.name_field {
        Some(f) => uri.push(JsonView::Text(f@)),
        None => uri,
    };
    match list.description_field {
        Some(f) => name.push(JsonView::Text(f@)),
        None => name,
    }
}

/// The query that matches everything.
pub open spec fn match_all() -> JsonView {
    JsonView::object().with("match_all"@, JsonView::object())
}

/// The search that lists a page of resources.
pub open spec fn list_body(list: ListQueryConfig, from: u64) -> JsonView {
    JsonView::object().with(
        "query"@,
        match list.query {
            Some(q) => q@,
            None => match_all(),
        },
    ).with("from"@, JsonView::number(from)).with("size"@, JsonView::number(list.page_size)).with(
        "_source"@,
        JsonView::Array(listed_fields(list)),
    )
}

/// The call that lists a page of resources.
pub open spec fn list_plan(spec: ElasticsearchBackendSpec, list: ListQueryConfig, from: u64) -> Result<
    PlanView,
    Seq<char>,
> {
    match spec.resolved_index(crate::text::opt_string(list.index)) {
        Err(m) => Err(m),
        Ok(index) => match spec.script_refusal(list_body(list, from)) {
            Some(m) => Err(m),
            None => Ok(post_plan(index, "/_search"@, list_body(list, from), EsOperation::Search)),
        },
    }
}

/// Plans the call that lists a page of resources.
pub fn plan_list(spec: &ElasticsearchBackendSpec, list: &ListQueryConfig, from: u64) -> (r: Result<
    CallPlan,
    String,
>)
    ensures
        plan_result(r) == list_plan(*spec, *list, from),
        r matches Ok(p) ==> (list.wf() ==> p@.payload.wf()),
{
    broadcast use {crate::json::group_json_views, crate::json::lemma_with_wf};

    let index = match spec.resolve_index(borrowed(&list.index)) {
        Ok(index) => index,
        Err(m) => {
            return Err(m);
        },
    };
    let query = match &list.query {
        Some(q) => q.clone(),
        None => Json::object().with("match_all", Json::object()),
    };
    let mut source: Vec<Json> = Vec::new();
    source.push(Json::text(list.uri_field.as_str()));
    assert(crate::json::values(source@) =~= seq![JsonView::Text(list.uri_field@)]);
    if let Some(f) = &list.name_field {
        source.push(Json::text(f.as_str()));
    }
    if let Some(f) = &list.description_field {
        source.push(Json::text(f.as_str()));
    }
    assert(crate::json::values(source@) == listed_fields(*list));
    let fields = Json::array(source);
    let body = Json::object().with("query", query).with("from", Json::number(from)).with(
        "size",
        Json::number(list.page_size),
    ).with("_source", fields);
    if let Err(m) = check_scripting(spec, &body) {
        return Err(m);
    }
    Ok(post(index.as_str(), "/_search", body, EsOperation::Search))
}

/// Builds the call that lists a page of resources.
pub fn build_list_call(spec: &ElasticsearchBackendSpec, list: &ListQueryConfig, from: u64) -> (r:
    Result<EsRestCall, String>)
    requires
        list.wf(),
    ensures
        call_result(r) == (match list_plan(*spec, *list, from) {
            Ok(p) => Ok::<CallView, Seq<char>>(written(p)),
            Err(m) => Err(m),
        }),
{
    match plan_list(spec, list, from) {
        Ok(p) => Ok(write_call(p)),
        Err(m) => Err(m),
    }
}

/// The condition that a field begins with a prefix. The prefix is a string value, so
/// nothing in it is part of the query.
pub open spec fn prefix_query(field: Seq<char>, prefix: Seq<char>) -> JsonView {
    JsonView::object().with(
        "prefix"@,
        JsonView::object().with(field, JsonView::Text(prefix)),
    )
}

/// The search for candidates of a completion.
pub open spec fn completion_body(c: EsCompletionConfig, prefix: Seq<char>, size: u64) -> JsonView {
    let conditions = JsonView::object().with(
        "must"@,
        JsonView::list().item(prefix_query(c.field@, prefix)),
    ).with_some("filter"@, crate::json::opt_value(c.filter));
    JsonView::object().with("query"@, JsonView::object().with("bool"@, conditions)).with(
        "size"@,
        JsonView::number(size),
    ).with("_source"@, JsonView::list().item(JsonView::Text(c.field@)))
}

/// The call that searches for candidates of a completion.
pub open spec fn completion_plan(
    spec: ElasticsearchBackendSpec,
    c: EsCompletionConfig,
    prefix: Seq<char>,
    size: u64,
) -> Result<PlanView, Seq<char>> {
    match spec.resolved_index(crate::text::opt_string(c.index)) {
        Err(m) => Err(m),
        Ok(index) => match spec.script_refusal(completion_body(c, prefix, size)) {
            Some(m) => Err(m),
            None => Ok(
                post_plan(
                    index,
                    "/_search"@,
                    completion_body(c, prefix, size),
                    EsOperation::Search,
                ),
            ),
        },
    }
}

/// Plans the call that searches for candidates of a completion.
pub fn plan_completion(
    spec: &ElasticsearchBackendSpec,
    cc: &EsCompletionConfig,
    prefix: &str,
    size: u64,
) -> (r: Result<CallPlan, String>)
    ensures
        plan_result(r) == completion_plan(*spec, *cc, prefix@, size),
        r matches Ok(p) ==> (cc.wf() ==> p@.payload.wf()),
{
    broadcast use crate::json::lemma_with_wf;

    let index = match spec.resolve_index(borrowed(&cc.index)) {
        Ok(index) => index,
        Err(m) => {
            return Err(m);
        },
    };
    let prefixed = Json::object().with(
        "prefix",
        Json::object().with(cc.field.as_str(), Json::text(prefix)),
    );
    let filter = match &cc.filter {
        Some(f) => Some(f.clone()),
        None => None,
    };
    let conditions = Json::object().with("must", Json::list().item(prefixed)).with_some(
        "filter",
        filter,
    );
    let body = Json::object().with("query", Json::object().with("bool", conditions)).with(
        "size",
        Json::number(size),
    ).with("_source", Json::list().item(Json::text(cc.field.as_str())));
    if let Err(m) = check_scripting(spec, &body) {
        return Err(m);
    }
    Ok(post(index.as_str(), "/_search", body, EsOperation::Search))
}

/// Builds the call that searches for candidates of a completion.
pub fn build_completion_call(
    spec: &ElasticsearchBackendSpec,
    cc: &EsCompletionConfig,
    prefix: &str,
    size: u64,
) -> (r: Result<EsRestCall, String>)
    requires
        cc.wf(),
    ensures
        call_result(r) == (match completion_plan(*spec, *cc, prefix@, size) {
            Ok(p) => Ok::<CallView, Seq<char>>(written(p)),
            Err(m) => Err(m),
        }),
{
    match plan_completion(spec, cc, prefix, size) {
        Ok(p) => Ok(write_call(p)),
        Err(m) => Err(m),
    }
}

/// A path below one index: a search, a count, a bulk write, the documents, or one
/// document of the index.
pub open spec fn route_of(path: Seq<char>, index: Seq<char>) -> bool {
    ||| path == index_path(index, "/_search"@)
    ||| path == index_path(index, "/_count"@)
    ||| path == index_path(index, "/_bulk"@)
    ||| path == index_path(index, "/_doc"@)
    ||| exists|id: Seq<char>|
        (#[trigger] crate::encode::doc_id(id)) matches Ok(segment) && path == doc_path(
            index,
            segment,
        )
}

/// A planned call goes to one index that is a safe name and reachable, by one of the
/// known routes; a multi-search goes to none and names its indices in its body.
pub proof fn law_call_stays_in_its_index(spec: ElasticsearchBackendSpec, args: JsonView)
    ensures
        planned(spec, args) matches Ok(p) ==> if spec.operation is Msearch {
            p.path == "/_msearch"@
        } else {
            &&& call_index(spec, args) matches Ok(index)
            &&& crate::config::safe_index_token(index)
            &&& spec.reachable(index)
            &&& route_of(p.path, index)
        },
{
    if let Ok(p) = planned(spec, args) {
        if !(spec.operation is Msearch) {
            let index = call_index(spec, args)->Ok_0;
            crate::config::law_resolved_index_is_safe(spec, args.get_text("index"@));
            if let Some(id) = args.get_text("id"@) {
                if let Ok(segment) = crate::encode::doc_id(id) {
                    assert(p.path == doc_path(index, segment) ==> route_of(p.path, index));
                }
            }
        }
    }
}

/// What each operation sends, and where to.
pub proof fn law_operations_have_their_routes(spec: ElasticsearchBackendSpec, args: JsonView)
    ensures
        planned(spec, args) matches Ok(p) ==> {
            let index = call_index(spec, args)->Ok_0;
            &&& p.operation == spec.operation
            &&& match spec.operation {
                EsOperation::Search => p.method is Post && p.path == index_path(
                    index,
                    "/_search"@,
                ),
                EsOperation::Count => p.method is Post && p.path == index_path(index, "/_count"@),
                EsOperation::Knn => p.method is Post && p.path == index_path(index, "/_search"@),
                EsOperation::Bulk => p.method is Post && p.path == index_path(index, "/_bulk"@),
                EsOperation::Msearch => p.method is Post && p.path == "/_msearch"@,
                EsOperation::Get => p.method is Get && p.path == doc_path(
                    index,
                    required_id(args)->Ok_0.1,
                ),
                EsOperation::Delete => p.method is Delete && p.path == doc_path(
                    index,
                    required_id(args)->Ok_0.1,
                ),
                EsOperation::Index => if args.get_text("id"@) is Some {
                    p.method is Put && p.path == doc_path(
                        index,
                        crate::encode::doc_id(args.get_text("id"@)->0)->Ok_0,
                    )
                } else {
                    p.method is Post && p.path == index_path(index, "/_doc"@)
                },
            }
        },
{
}

/// An action of a bulk call that has settings but names no index in them gets the index
/// of the call, which is the one in its path.
pub proof fn law_bulk_actions_follow_the_call(
    spec: ElasticsearchBackendSpec,
    args: JsonView,
    i: int,
)
    requires
        spec.operation is Bulk,
        args.get_array("operations"@) matches Some(ops) && 0 <= i < ops.len()
            && !crate::ndjson::source_at(ops, i) && (ops[i] matches JsonView::Object(fields)
            && fields[0].1 is Object && fields[0].1.get_text("_index"@) is None),
    ensures
        planned(spec, args) matches Ok(p) ==> {
            &&& call_index(spec, args) matches Ok(index)
            &&& p.path == index_path(index, "/_bulk"@)
            &&& p.payload matches PayloadView::Lines(lines)
            &&& lines[i]->Object_0[0].1.get_text("_index"@) == Some(index)
        },
{
    if let Ok(p) = planned(spec, args) {
        let index = call_index(spec, args)->Ok_0;
        let ops = args.get_array("operations"@)->0;
        let lines = p.payload->Lines_0;
        crate::ndjson::law_bulk_reaches_allowed_indices_only(spec, Some(index), ops);
        assert(lines[i] is Object);
    }
}

/// Bulk writes and multi-searches are sent line by line, everything else as plain JSON.
pub proof fn law_lines_for_bulk_and_msearch(spec: ElasticsearchBackendSpec, args: JsonView)
    ensures
        built(spec, args) matches Ok(c) ==> c.content_type == (if spec.operation is Bulk
            || spec.operation is Msearch {
            "application/x-ndjson"@
        } else {
            "application/json"@
        }),
{
}

/// An operation that does not change an index only reads documents, or posts a
/// search or a count.
pub proof fn law_reads_do_not_write(spec: ElasticsearchBackendSpec, args: JsonView)
    requires
        !spec.operation.writes(),
    ensures
        planned(spec, args) matches Ok(p) ==> {
            ||| p.method is Get && p.payload is Empty
            ||| p.method is Post && p.path == "/_msearch"@
            ||| p.method is Post && exists|index: Seq<char>|
                p.path == #[trigger] index_path(index, "/_search"@)
            ||| p.method is Post && exists|index: Seq<char>|
                p.path == #[trigger] index_path(index, "/_count"@)
        },
{
    if let Ok(p) = planned(spec, args) {
        if let Ok(index) = call_index(spec, args) {
            assert(p.path == index_path(index, "/_search"@) || p.path == index_path(
                index,
                "/_count"@,
            ) || !(spec.operation is Search || spec.operation is Count || spec.operation is Knn));
        }
    }
}

/// A call that is built has a body within the cap.
pub proof fn law_built_call_fits_cap(spec: ElasticsearchBackendSpec, args: JsonView)
    ensures
        built(spec, args) matches Ok(c) ==> (c.body matches Some(b) ==> b.len()
            <= spec.max_request_bytes),
{
}

/// Where scripts are not allowed, a listing or a completion that is planned carries
/// none at any depth.
pub proof fn law_fixed_searches_are_script_free(
    spec: ElasticsearchBackendSpec,
    list: ListQueryConfig,
    from: u64,
    c: EsCompletionConfig,
    prefix: Seq<char>,
    size: u64,
)
    requires
        !spec.allow_scripting,
    ensures
        list_plan(spec, list, from) is Ok ==> crate::scripting::script_free(list_body(list, from)),
        completion_plan(spec, c, prefix, size) is Ok ==> crate::scripting::script_free(
            completion_body(c, prefix, size),
        ),
{
    crate::scripting::law_search_finds_every_script(list_body(list, from));
    crate::scripting::law_search_finds_every_script(completion_body(c, prefix, size));
}

/// What a caller types stays a value: the only place of a completion that depends on
/// it is the string that the field is matched with.
pub proof fn law_prefix_is_bound_as_value(c: EsCompletionConfig, prefix: Seq<char>, size: u64)
    ensures
        completion_body(c, prefix, size).get("query"@) matches Some(q) && q.get("bool"@) matches Some(
            b,
        ) && b.get("must"@) == Some(JsonView::list().item(prefix_query(c.field@, prefix)))
            && b.get("filter"@) == crate::json::opt_value(c.filter),
        prefix_query(c.field@, prefix).get("prefix"@) == Some(
            JsonView::object().with(c.field@, JsonView::Text(prefix)),
        ),
        JsonView::object().with(c.field@, JsonView::Text(prefix)).get(c.field@) == Some(
            JsonView::Text(prefix),
        ),
{
    broadcast use crate::json::lemma_get_with;

    reveal_strlit("query");
    reveal_strlit("size");
    reveal_strlit("_source");
    reveal_strlit("must");
    reveal_strlit("filter");
    reveal_strlit("bool");
    assert("query"@.len() == 5 && "size"@.len() == 4 && "_source"@.len() == 7);
    assert("must"@.len() == 4 && "filter"@.len() == 6);
}

/// Two configurations that differ in nothing that a call is built of. Credentials, TLS
/// settings and base URLs may differ.
pub open spec fn same_call_settings(
    a: ElasticsearchBackendSpec,
    b: ElasticsearchBackendSpec,
) -> bool {
    &&& a.operation == b.operation
    &&& a.default_index == b.default_index
    &&& a.index_allowlist == b.index_allowlist
    &&& a.allow_any_index == b.allow_any_index
    &&& a.allow_scripting == b.allow_scripting
    &&& a.max_request_bytes == b.max_request_bytes
    &&& a.max_size == b.max_size
    &&& a.max_from == b.max_from
    &&& a.knn == b.knn
}

proof fn lemma_same_lines(
    a: ElasticsearchBackendSpec,
    b: ElasticsearchBackendSpec,
    fallback: Option<Seq<char>>,
    items: Seq<JsonView>,
    k: int,
    source: bool,
)
    requires
        same_call_settings(a, b),
    ensures
        crate::ndjson::bulk_lines(a, fallback, items, k, source) == crate::ndjson::bulk_lines(
            b,
            fallback,
            items,
            k,
            source,
        ),
        crate::ndjson::msearch_lines(a, items, k) == crate::ndjson::msearch_lines(b, items, k),
    decreases items.len() - k,
{
    if k < items.len() {
        assert(crate::ndjson::bulk_line(a, fallback, k, items[k], source) == crate::ndjson::bulk_line(
            b,
            fallback,
            k,
            items[k],
            source,
        ));
        assert(crate::body::search_body(a, items[k], true) == crate::body::search_body(
            b,
            items[k],
            true,
        ));
        assert(a.resolved_index(items[k].get_text("index"@)) == b.resolved_index(
            items[k].get_text("index"@),
        ));
        lemma_same_lines(a, b, fallback, items, k + 1, crate::ndjson::source_next(items[k], source));
    }
}

/// No secret gets into a call: it is the same whatever the credentials are.
pub proof fn law_call_holds_no_credentials(
    a: ElasticsearchBackendSpec,
    b: ElasticsearchBackendSpec,
    args: JsonView,
)
    requires
        same_call_settings(a, b),
    ensures
        planned(a, args) == planned(b, args),
        built(a, args) == built(b, args),
{
    assert(call_index(a, args) == call_index(b, args));
    assert(crate::body::search_body(a, args, true) == crate::body::search_body(b, args, true));
    assert(crate::body::search_body(a, args, false) == crate::body::search_body(b, args, false));
    if let Some(knn) = a.knn {
        assert(crate::body::knn_body(a, knn, args) == crate::body::knn_body(b, knn, args));
    }
    if let Some(ops) = args.get_array("operations"@) {
        if let Ok(index) = call_index(a, args) {
            lemma_same_lines(a, b, Some(index), ops, 0, false);
        }
    }
    if let Some(searches) = args.get_array("searches"@) {
        lemma_same_lines(a, b, None, searches, 0, false);
    }
}

/// A text argument of a call.
pub open spec fn text_argument(args: JsonView, key: Seq<char>) -> Option<Seq<char>> {
    match args.get(key) {
        Some(JsonView::Text(s)) => Some(s),
        _ => None,
    }
}

/// Why the index of a call does not resolve, where it does not. Every operation but a
/// multi-search looks at the index first.
pub proof fn law_index_is_looked_at_first(spec: ElasticsearchBackendSpec, args: JsonView)
    requires
        !(spec.operation is Msearch),
    ensures
        spec.resolved_index(text_argument(args, "index"@)) matches Err(m) ==> planned(spec, args)
            == Err::<PlanView, Seq<char>>(m),
{
}

/// A search and a count: a post to the index of the call that sends the body of the
/// search, with a page and without one. Only the index and the body can be in the way.
pub proof fn law_call_of_a_search(spec: ElasticsearchBackendSpec, args: JsonView)
    requires
        spec.operation is Search || spec.operation is Count,
        spec.resolved_index(text_argument(args, "index"@)) is Ok,
    ensures
        ({
            let index = spec.resolved_index(text_argument(args, "index"@))->Ok_0;
            let body = crate::body::search_body(spec, args, spec.operation is Search);
            match planned(spec, args) {
                Err(m) => body == Err::<JsonView, Seq<char>>(m),
                Ok(p) => {
                    &&& p.method == Method::Post
                    &&& spec.operation is Search ==> p.path == "/"@ + index + "/_search"@
                    &&& spec.operation is Count ==> p.path == "/"@ + index + "/_count"@
                    &&& p.display_path == p.path
                    &&& p.query is None
                    &&& body is Ok && p.payload == PayloadView::Value(body->Ok_0)
                    &&& p.operation == spec.operation
                },
            }
        }),
{
}

/// A vector search: a post to the index of the call that sends the body of the
/// configured vector search.
pub proof fn law_call_of_a_vector_search(spec: ElasticsearchBackendSpec, args: JsonView)
    requires
        spec.operation is Knn,
        spec.resolved_index(text_argument(args, "index"@)) is Ok,
    ensures
        spec.knn is None ==> planned(spec, args) == Err::<PlanView, Seq<char>>(
            "knn operation requires a `knn` config block"@,
        ),
        spec.knn matches Some(knn) ==> ({
            let index = spec.resolved_index(text_argument(args, "index"@))->Ok_0;
            let body = crate::body::knn_body(spec, knn, args);
            match planned(spec, args) {
                Err(m) => body == Err::<JsonView, Seq<char>>(m),
                Ok(p) => {
                    &&& p.method == Method::Post
                    &&& p.path == "/"@ + index + "/_search"@
                    &&& p.display_path == p.path
                    &&& p.query is None
                    &&& body is Ok && p.payload == PayloadView::Value(body->Ok_0)
                    &&& p.operation == spec.operation
                },
            }
        }),
{
}

/// Reading and deleting one document: the path is that of the document whose id the call
/// carries, encoded, and the path that is shown has the id as it was given. A call
/// without an id, or with one that is not accepted, is refused. Nothing is sent along.
pub proof fn law_call_of_one_document(spec: ElasticsearchBackendSpec, args: JsonView)
    requires
        spec.operation is Get || spec.operation is Delete,
        spec.resolved_index(text_argument(args, "index"@)) is Ok,
    ensures
        ({
            let index = spec.resolved_index(text_argument(args, "index"@))->Ok_0;
            match text_argument(args, "id"@) {
                None => planned(spec, args) == Err::<PlanView, Seq<char>>(
                    "missing required `id` argument"@,
                ),
                Some(id) => {
                    &&& crate::encode::doc_id(id) matches Err(m) ==> planned(spec, args) == Err::<
                        PlanView,
                        Seq<char>,
                    >(m)
                    &&& crate::encode::doc_id(id) is Ok && spec.operation is Get ==> planned(
                        spec,
                        args,
                    ) is Ok
                    &&& planned(spec, args) matches Ok(p) ==> {
                        &&& spec.operation is Get ==> p.method == Method::Get
                        &&& spec.operation is Delete ==> p.method == Method::Delete
                        &&& crate::encode::doc_id(id) matches Ok(segment) && p.path == "/"@ + index
                            + "/_doc/"@ + segment
                        &&& p.display_path == "/"@ + index + "/_doc/"@ + id
                        &&& p.payload is Empty
                        &&& p.operation == spec.operation
                    }
                },
            }
        }),
{
}

/// What the argument that settles when a write shows may be: missing, or one of three
/// texts. Anything else is refused.
pub proof fn law_refresh_is_one_of_three(args: JsonView)
    ensures
        args.get("refresh"@) is None ==> refresh_choice(args) == Ok::<Option<Seq<char>>, Seq<char>>(
            None,
        ),
        args.get("refresh"@) matches Some(JsonView::Text(r)) ==> if r == "true"@ || r == "false"@
            || r == "wait_for"@ {
            refresh_choice(args) == Ok::<Option<Seq<char>>, Seq<char>>(Some(r))
        } else {
            refresh_choice(args) == Err::<Option<Seq<char>>, Seq<char>>(
                "`refresh` must be \"true\", \"false\", or \"wait_for\""@,
            )
        },
        args.get("refresh"@) matches Some(v) ==> (!(v is Text) ==> refresh_choice(args) == Err::<
            Option<Seq<char>>,
            Seq<char>,
        >("`refresh` must be a string"@)),
{
}

/// The query string of a deletion carries the refresh setting of the call and nothing
/// else, and the deletion is refused where the setting is.
pub proof fn law_deletion_carries_refresh(spec: ElasticsearchBackendSpec, args: JsonView)
    requires
        spec.operation is Delete,
        spec.resolved_index(text_argument(args, "index"@)) is Ok,
        text_argument(args, "id"@) matches Some(id) && crate::encode::doc_id(id) is Ok,
    ensures
        refresh_choice(args) matches Err(m) ==> planned(spec, args) == Err::<PlanView, Seq<char>>(
            m,
        ),
        refresh_choice(args) is Ok ==> (planned(spec, args) matches Ok(p) && match text_argument(
            args,
            "refresh"@,
        ) {
            Some(r) => p.query == Some("refresh="@ + r),
            None => p.query is None,
        }),
{
}

/// The query string of a read selects fields as the call asks: all or none of them by a
/// truth value, those that a list names, encoded and in its order, and by default no
/// selection.
pub proof fn law_read_selects_fields(spec: ElasticsearchBackendSpec, args: JsonView)
    requires
        spec.operation is Get,
    ensures
        planned(spec, args) matches Ok(p) ==> match args.get("source"@) {
            Some(JsonView::Bool(b)) => {
                &&& b ==> p.query == Some("_source=true"@)
                &&& !b ==> p.query == Some("_source=false"@)
            },
            Some(JsonView::Array(items)) => {
                let names = encoded_names(items);
                &&& names.len() == 0 ==> p.query is None
                &&& names.len() > 0 ==> p.query == Some(
                    "_source="@ + crate::text::joined(names, ","@),
                )
            },
            _ => p.query is None,
        },
{
    reveal_strlit("_source=");
    reveal_strlit("true");
    reveal_strlit("false");
    reveal_strlit("_source=true");
    reveal_strlit("_source=false");
    assert("_source="@ + "true"@ =~= "_source=true"@);
    assert("_source="@ + "false"@ =~= "_source=false"@);
}

/// The names in a list are its texts, encoded, each once and in its place; what is no
/// text is passed over.
pub proof fn law_names_of_a_list(a: Seq<JsonView>, v: JsonView, b: Seq<JsonView>)
    ensures
        encoded_names(a + seq![v] + b) == encoded_names(a) + (match v {
            JsonView::Text(s) => seq![crate::encode::percent_encoded(encode_utf8(s))],
            _ => Seq::empty(),
        }) + encoded_names(b),
        encoded_names(Seq::empty()) == Seq::<Seq<char>>::empty(),
    decreases b.len(),
{
    let middle = match v {
        JsonView::Text(s) => seq![crate::encode::percent_encoded(encode_utf8(s))],
        _ => Seq::empty(),
    };
    let all = a + seq![v] + b;
    if b.len() == 0 {
        assert(all.drop_last() =~= a);
        assert(all.last() == v);
        assert(encoded_names(all) =~= encoded_names(a) + middle + encoded_names(b));
    } else {
        law_names_of_a_list(a, v, b.drop_last());
        assert(all.drop_last() =~= a + seq![v] + b.drop_last());
        assert(all.last() == b.last());
        assert(encoded_names(all) =~= encoded_names(a) + middle + encoded_names(b));
    }
}

/// Writing one document sends the document of the call as it is. With an id it is put at
/// the path of that id, without one posted to the documents of the index. The query
/// string carries the refresh setting whenever the call has one, and the kind of the
/// write whenever the call has one, whether or not there is an id.
pub proof fn law_call_of_a_write(spec: ElasticsearchBackendSpec, args: JsonView)
    requires
        spec.operation is Index,
        spec.resolved_index(text_argument(args, "index"@)) is Ok,
    ensures
        planned(spec, args) matches Ok(p) ==> {
            let index = spec.resolved_index(text_argument(args, "index"@))->Ok_0;
            let refresh = text_argument(args, "refresh"@);
            let kind = text_argument(args, "op_type"@);
            &&& args.get("document"@) matches Some(document) && p.payload == PayloadView::Value(
                document,
            )
            &&& match text_argument(args, "id"@) {
                Some(id) => {
                    &&& p.method == Method::Put
                    &&& crate::encode::doc_id(id) matches Ok(segment) && p.path == "/"@ + index
                        + "/_doc/"@ + segment
                    &&& p.display_path == "/"@ + index + "/_doc/"@ + id
                },
                None => {
                    &&& p.method == Method::Post
                    &&& p.path == "/"@ + index + "/_doc"@
                    &&& p.display_path == p.path
                },
            }
            &&& refresh matches Some(r) ==> p.query matches Some(q) && crate::text::starts_with(
                q,
                "refresh="@ + r,
            )
            &&& kind matches Some(t) ==> p.query matches Some(q) && crate::text::ends_with(
                q,
                "op_type="@ + t,
            )
            &&& refresh is None && kind is None <==> p.query is None
            &&& refresh is None ==> (kind matches Some(t) ==> p.query == Some("op_type="@ + t))
            &&& kind is None ==> (refresh matches Some(r) ==> p.query == Some("refresh="@ + r))
            &&& refresh matches Some(r) ==> (kind matches Some(t) ==> p.query == Some(
                "refresh="@ + r + "&op_type="@ + t,
            ))
            &&& p.operation == spec.operation
        },
{
    if let Ok(p) = planned(spec, args) {
        if let Some(q) = p.query {
            if let Some(r) = text_argument(args, "refresh"@) {
                assert(q.subrange(0, ("refresh="@ + r).len() as int) =~= "refresh="@ + r);
            }
            if let Some(t) = text_argument(args, "op_type"@) {
                assert(q.subrange(q.len() - ("op_type="@ + t).len(), q.len() as int) =~= "op_type="@
                    + t);
                if let Some(r) = text_argument(args, "refresh"@) {
                    reveal_strlit("&");
                    reveal_strlit("op_type=");
                    reveal_strlit("&op_type=");
                    assert("&"@ + "op_type="@ =~= "&op_type="@);
                    assert(q =~= "refresh="@ + r + "&op_type="@ + t);
                }
            }
        }
    }
}

/// When a write is accepted, and what is in the way where it is not: the document must be
/// an object, then the refresh setting and the kind must be known ones, then the id, if
/// there is one, must be accepted.
pub proof fn law_write_that_is_refused(spec: ElasticsearchBackendSpec, args: JsonView)
    requires
        spec.operation is Index,
        spec.resolved_index(text_argument(args, "index"@)) is Ok,
    ensures
        ({
            let kind = text_argument(args, "op_type"@);
            let document = args.get("document"@) matches Some(d) && d is Object;
            let known = kind matches Some(t) ==> t == "index"@ || t == "create"@;
            &&& !document ==> planned(spec, args) == Err::<PlanView, Seq<char>>(
                "missing required `document` object argument"@,
            )
            &&& document ==> (refresh_choice(args) matches Err(m) ==> planned(spec, args) == Err::<
                PlanView,
                Seq<char>,
            >(m))
            &&& document && refresh_choice(args) is Ok && !known ==> planned(spec, args) == Err::<
                PlanView,
                Seq<char>,
            >("`op_type` must be `index` or `create`"@)
            &&& document && refresh_choice(args) is Ok && known ==> match text_argument(
                args,
                "id"@,
            ) {
                None => planned(spec, args) is Ok,
                Some(id) => match crate::encode::doc_id(id) {
                    Ok(_) => planned(spec, args) is Ok,
                    Err(m) => planned(spec, args) == Err::<PlanView, Seq<char>>(m),
                },
            }
        }),
{
}

/// Several writes: a post to the index of the call that sends, line by line, what the
/// operations of the call come to with that index as the one of actions that name none.
/// The query string carries the refresh setting of the call.
pub proof fn law_call_of_a_bulk_write(spec: ElasticsearchBackendSpec, args: JsonView)
    requires
        spec.operation is Bulk,
        spec.resolved_index(text_argument(args, "index"@)) is Ok,
    ensures
        ({
            let index = spec.resolved_index(text_argument(args, "index"@))->Ok_0;
            match args.get("operations"@) {
                Some(JsonView::Array(ops)) => {
                    let lines = crate::ndjson::bulk_lines(spec, Some(index), ops, 0, false);
                    &&& lines matches Err(m) ==> planned(spec, args) == Err::<PlanView, Seq<char>>(
                        m,
                    )
                    &&& lines is Ok ==> (refresh_choice(args) matches Err(m) ==> planned(spec, args)
                        == Err::<PlanView, Seq<char>>(m))
                    &&& lines is Ok && refresh_choice(args) is Ok ==> {
                        &&& planned(spec, args) matches Ok(p)
                        &&& p.method == Method::Post
                        &&& p.path == "/"@ + index + "/_bulk"@
                        &&& p.display_path == p.path
                        &&& p.payload == PayloadView::Lines(lines->Ok_0)
                        &&& p.operation == spec.operation
                        &&& match text_argument(args, "refresh"@) {
                            Some(r) => p.query == Some("refresh="@ + r),
                            None => p.query is None,
                        }
                    }
                },
                _ => planned(spec, args) == Err::<PlanView, Seq<char>>(
                    "missing required `operations` array argument"@,
                ),
            }
        }),
{
}

/// Several searches: a post that names no index in its path and sends, line by line, what
/// the searches of the call come to. There must be at least one.
pub proof fn law_call_of_a_multi_search(spec: ElasticsearchBackendSpec, args: JsonView)
    requires
        spec.operation is Msearch,
    ensures
        match args.get("searches"@) {
            Some(JsonView::Array(searches)) => {
                let lines = crate::ndjson::msearch_lines(spec, searches, 0);
                &&& searches.len() == 0 ==> planned(spec, args) == Err::<PlanView, Seq<char>>(
                    "`searches` must not be empty"@,
                )
                &&& searches.len() > 0 ==> (lines matches Err(m) ==> planned(spec, args) == Err::<
                    PlanView,
                    Seq<char>,
                >(m))
                &&& searches.len() > 0 && lines is Ok ==> {
                    &&& planned(spec, args) matches Ok(p)
                    &&& p.method == Method::Post
                    &&& p.path == "/_msearch"@
                    &&& p.display_path == p.path
                    &&& p.query is None
                    &&& p.payload == PayloadView::Lines(lines->Ok_0)
                    &&& p.operation == spec.operation
                }
            },
            _ => planned(spec, args) == Err::<PlanView, Seq<char>>(
                "missing required `searches` array argument"@,
            ),
        },
{
}

/// Writing a plan out changes nothing but the form of its payload: one value becomes the
/// bytes of its JSON text, lines become the bytes of their text, and nothing stays
/// nothing. The content type says which of the two forms it is.
pub proof fn law_plan_is_written_out(p: PlanView)
    ensures
        ({
            let c = written(p);
            &&& c.method == p.method
            &&& c.path == p.path
            &&& c.query == p.query
            &&& c.operation == p.operation
            &&& c.display_path == p.display_path
            &&& match p.payload {
                PayloadView::Empty => c.body is None && c.content_type == "application/json"@,
                PayloadView::Value(v) => {
                    &&& c.body == Some(encode_utf8(crate::wire::json_text(v)))
                    &&& c.content_type == "application/json"@
                },
                PayloadView::Lines(lines) => {
                    &&& c.body == Some(encode_utf8(crate::ndjson::ndjson(lines)))
                    &&& c.content_type == "application/x-ndjson"@
                },
            }
        }),
{
}

/// A call is built exactly where it is planned and its body is within the cap, and it is
/// the planned one, written out. A body over the cap is refused with both lengths.
pub proof fn law_call_is_built_as_planned(spec: ElasticsearchBackendSpec, args: JsonView)
    ensures
        planned(spec, args) matches Err(m) ==> built(spec, args) == Err::<CallView, Seq<char>>(m),
        planned(spec, args) matches Ok(p) ==> match written(p).body {
            Some(b) => {
                &&& b.len() <= spec.max_request_bytes ==> built(spec, args) == Ok::<
                    CallView,
                    Seq<char>,
                >(written(p))
                &&& b.len() > spec.max_request_bytes ==> built(spec, args) == Err::<
                    CallView,
                    Seq<char>,
                >(
                    "request body "@ + crate::text::decimal(b.len())
                        + " bytes exceeds max_request_bytes "@ + crate::text::decimal(
                        spec.max_request_bytes as nat,
                    ),
                )
            },
            None => built(spec, args) == Ok::<CallView, Seq<char>>(written(p)),
        },
{
}

/// The names of the methods.
pub proof fn law_methods_on_the_wire()
    ensures
        Method::Get.name() == "GET"@,
        Method::Post.name() == "POST"@,
        Method::Put.name() == "PUT"@,
        Method::Delete.name() == "DELETE"@,
{
}

/// The keys of a fixed search differ.
proof fn lemma_fixed_search_keys()
    ensures
        "query"@ != "from"@,
        "query"@ != "size"@,
        "query"@ != "_source"@,
        "from"@ != "size"@,
        "from"@ != "_source"@,
        "size"@ != "_source"@,
        "must"@ != "filter"@,
{
    reveal_strlit("query");
    reveal_strlit("from");
    reveal_strlit("size");
    reveal_strlit("_source");
    reveal_strlit("must");
    reveal_strlit("filter");
    assert("query"@.len() == 5 && "from"@.len() == 4 && "size"@.len() == 4);
    assert("_source"@.len() == 7 && "must"@.len() == 4 && "filter"@.len() == 6);
    assert("from"@[0] == 'f' && "size"@[0] == 's');
}

/// A listing is a search of its own index, or else the default one, for a page of the
/// configured size from the given start on. It asks the configured query, or one that
/// matches everything, and of each hit for the field of the URI and the fields of the
/// name and the description where they are configured.
pub proof fn law_call_of_a_listing(
    spec: ElasticsearchBackendSpec,
    list: ListQueryConfig,
    from: u64,
    key: Seq<char>,
)
    ensures
        list_plan(spec, list, from) matches Ok(p) ==> {
            &&& spec.resolved_index(crate::text::opt_string(list.index)) matches Ok(index)
            &&& p.method == Method::Post
            &&& p.path == "/"@ + index + "/_search"@
            &&& p.display_path == p.path
            &&& p.query is None
            &&& p.operation == EsOperation::Search
            &&& p.payload matches PayloadView::Value(body)
            &&& body is Object
            &&& body.get("from"@) == Some(JsonView::number(from))
            &&& body.get("size"@) == Some(JsonView::number(list.page_size))
            &&& list.query matches Some(q) ==> body.get("query"@) == Some(q@)
            &&& list.query is None ==> body.get("query"@) == Some(
                JsonView::Object(seq![("match_all"@, JsonView::Object(Seq::empty()))]),
            )
            &&& body.get("_source"@) matches Some(JsonView::Array(fields))
            &&& fields.len() == 1 + (if list.name_field is Some {
                1int
            } else {
                0
            }) + (if list.description_field is Some {
                1int
            } else {
                0
            })
            &&& fields[0] == JsonView::Text(list.uri_field@)
            &&& list.name_field matches Some(f) ==> fields[1] == JsonView::Text(f@)
            &&& list.description_field matches Some(f) ==> fields.last() == JsonView::Text(f@)
            &&& body.get(key) is Some ==> key == "query"@ || key == "from"@ || key == "size"@ || key
                == "_source"@
        },
{
    broadcast use crate::json::lemma_get_with;

    lemma_fixed_search_keys();
    assert(match_all() == JsonView::Object(seq![("match_all"@, JsonView::Object(Seq::empty()))]));
}

/// When a listing or a completion is planned: where its index resolves and its body is
/// not refused by the guard against scripts, in this order.
pub proof fn law_fixed_search_that_is_refused(
    spec: ElasticsearchBackendSpec,
    list: ListQueryConfig,
    from: u64,
    c: EsCompletionConfig,
    prefix: Seq<char>,
    size: u64,
)
    ensures
        match spec.resolved_index(crate::text::opt_string(list.index)) {
            Err(m) => list_plan(spec, list, from) == Err::<PlanView, Seq<char>>(m),
            Ok(_) => match spec.script_refusal(list_body(list, from)) {
                Some(m) => list_plan(spec, list, from) == Err::<PlanView, Seq<char>>(m),
                None => list_plan(spec, list, from) is Ok,
            },
        },
        match spec.resolved_index(crate::text::opt_string(c.index)) {
            Err(m) => completion_plan(spec, c, prefix, size) == Err::<PlanView, Seq<char>>(m),
            Ok(_) => match spec.script_refusal(completion_body(c, prefix, size)) {
                Some(m) => completion_plan(spec, c, prefix, size) == Err::<PlanView, Seq<char>>(m),
                None => completion_plan(spec, c, prefix, size) is Ok,
            },
        },
{
}

/// A completion is a search of its own index, or else the default one, for as many hits
/// as are asked for, and of each for the completed field. Its query has one condition,
/// that the field begins with what was typed, and the configured filter beside it.
pub proof fn law_call_of_a_completion(
    spec: ElasticsearchBackendSpec,
    c: EsCompletionConfig,
    prefix: Seq<char>,
    size: u64,
    key: Seq<char>,
)
    ensures
        completion_plan(spec, c, prefix, size) matches Ok(p) ==> {
            &&& spec.resolved_index(crate::text::opt_string(c.index)) matches Ok(index)
            &&& p.method == Method::Post
            &&& p.path == "/"@ + index + "/_search"@
            &&& p.display_path == p.path
            &&& p.query is None
            &&& p.operation == EsOperation::Search
            &&& p.payload matches PayloadView::Value(body)
            &&& body is Object
            &&& body.get("size"@) == Some(JsonView::number(size))
            &&& body.get("_source"@) == Some(JsonView::Array(seq![JsonView::Text(c.field@)]))
            &&& body.get(key) is Some ==> key == "query"@ || key == "size"@ || key == "_source"@
            &&& body.get("query"@) matches Some(query)
            &&& query.get(key) is Some ==> key == "bool"@
            &&& query.get("bool"@) matches Some(conditions)
            &&& conditions.get(key) is Some ==> key == "must"@ || key == "filter"@
            &&& conditions.get("must"@) == Some(
                JsonView::Array(
                    seq![
                        JsonView::Object(
                            seq![
                                (
                                    "prefix"@,
                                    JsonView::Object(seq![(c.field@, JsonView::Text(prefix))]),
                                ),
                            ],
                        ),
                    ],
                ),
            )
            &&& c.filter matches Some(f) ==> conditions.get("filter"@) == Some(f@)
            &&& c.filter is None ==> conditions.get("filter"@) is None
        },
{
    broadcast use crate::json::lemma_get_with;

    lemma_fixed_search_keys();
    let field = JsonView::Object(seq![(c.field@, JsonView::Text(prefix))]);
    assert(JsonView::object().with(c.field@, JsonView::Text(prefix)) == field);
    let condition = JsonView::Object(seq![("prefix"@, field)]);
    assert(prefix_query(c.field@, prefix) == condition);
    assert(JsonView::list().item(condition) == JsonView::Array(seq![condition])) by {
        assert(Seq::<JsonView>::empty().push(condition) =~= seq![condition]);
    }
    let text = JsonView::Text(c.field@);
    assert(JsonView::list().item(text) == JsonView::Array(seq![text])) by {
        assert(Seq::<JsonView>::empty().push(text) =~= seq![text]);
    }
}

} // verus!
