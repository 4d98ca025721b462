//! Request bodies of several lines: bulk writes and multi-searches.
//!
//! A bulk body names its targets itself, line by line, and so does a
//! multi-search. Every target is resolved like the index of a single call.

use vstd::prelude::*;
use vstd::slice::slice_to_vec;
use vstd::string::StringExecFns;
use vstd::utf8::encode_utf8;

use crate::body::build_search_body;
use crate::config::ElasticsearchBackendSpec;
use crate::json::{Json, JsonView};
use crate::scripting::check_scripting;
use crate::text::{decimal_text, same_text};

verus! {

/// Lines of compact JSON, each with a line feed behind it.
pub open spec fn ndjson(lines: Seq<JsonView>) -> Seq<char>
    decreases lines.len(),
{
    if lines.len() == 0 {
        Seq::empty()
    } else {
        ndjson(lines.drop_last()) + crate::wire::json_text(lines.last()) + seq!['\n']
    }
}

/// The number of line feeds in a text.
pub open spec fn line_feeds(s: Seq<char>) -> nat
    decreases s.len(),
{
    if s.len() == 0 {
        0
    } else {
        line_feeds(s.drop_last()) + if s.last() == '\n' {
            1nat
        } else {
            0nat
        }
    }
}

proof fn lemma_no_line_feeds(a: Seq<char>, b: Seq<char>)
    requires
        !b.contains('\n'),
    ensures
        line_feeds(a + b) == line_feeds(a),
    decreases b.len(),
{
    if b.len() == 0 {
        assert(a + b =~= a);
    } else {
        assert((a + b).drop_last() =~= a + b.drop_last());
        assert((a + b).last() == b.last());
        assert(b.contains(b.last()));
        assert forall|i: int| 0 <= i < b.drop_last().len() implies b.drop_last()[i] != '\n' by {
            assert(b.contains(b[i]));
        }
        lemma_no_line_feeds(a, b.drop_last());
    }
}

/// Writes values one to a line. There are as many line feeds as values, and the
/// text ends in one.
pub fn write_lines(lines: &Vec<Json>) -> (r: String)
    requires
        forall|i: int| 0 <= i < lines@.len() ==> (#[trigger] lines@[i])@.wf(),
    ensures
        r@ == ndjson(crate::json::values(lines@)),
        line_feeds(r@) == lines@.len(),
        lines@.len() > 0 ==> r@.len() > 0 && r@.last() == '\n',
{
    let ghost all = crate::json::values(lines@);
    let mut out = String::new();
    let mut i: usize = 0;
    while i < lines.len()
        invariant
            i <= lines@.len(),
            all == crate::json::values(lines@),
            forall|i: int| 0 <= i < lines@.len() ==> (#[trigger] lines@[i])@.wf(),
            out@ == ndjson(all.take(i as int)),
            line_feeds(out@) == i,
            i > 0 ==> out@.len() > 0 && out@.last() == '\n',
        decreases lines@.len() - i,
    {
        let line = lines[i].encode();
        let ghost before = out@;
        out.append(line.as_str());
        out.push('\n');
        proof {
            lemma_no_line_feeds(before, line@);
            assert(out@.drop_last() =~= before + line@);
            assert(all.take(i + 1).drop_last() =~= all.take(i as int));
            assert(all.take(i + 1).last() == lines@[i as int]@);
            assert(out@ =~= ndjson(all.take(i + 1)));
        }
        i += 1;
    }
    assert(all.take(i as int) =~= all);
    out
}

/// The verbs of a bulk action.
pub open spec fn bulk_verb(action: Seq<char>) -> bool {
    action == "index"@ || action == "create"@ || action == "update"@ || action == "delete"@
}

/// The start of a message on one of the bulk operations.
pub open spec fn bulk_at(i: int) -> Seq<char> {
    "bulk operations["@ + crate::text::decimal(i as nat) + "]"@
}

/// The index that the settings of an action ask for: the one that they name, else the
/// fallback.
pub open spec fn action_index(settings: JsonView, fallback: Option<Seq<char>>) -> Option<Seq<char>> {
    match settings.get_text("_index"@) {
        Some(index) => Some(index),
        None => fallback,
    }
}

/// An action line: one verb, whose settings get the index that they resolve to.
pub open spec fn bulk_action(
    spec: ElasticsearchBackendSpec,
    fallback: Option<Seq<char>>,
    i: int,
    op: JsonView,
) -> Result<JsonView, Seq<char>> {
    match op {
        JsonView::Object(fields) => if fields.len() != 1 {
            Err(
                bulk_at(i)
                    + " must name exactly one action (index, create, update, delete)"@,
            )
        } else if !bulk_verb(fields[0].0) {
            Err(
                bulk_at(i) + " action `"@ + fields[0].0
                    + "` is not one of index, create, update, delete"@,
            )
        } else if fields[0].1 is Object {
            match spec.resolved_index(action_index(fields[0].1, fallback)) {
                Err(m) => Err(bulk_at(i) + ": "@ + m),
                Ok(index) => Ok(
                    JsonView::Object(
                        seq![
                            (fields[0].0, fields[0].1.with("_index"@, JsonView::Text(index))),
                        ],
                    ),
                ),
            }
        } else {
            Ok(op)
        },
        _ => Err(bulk_at(i) + " must be an action object"@),
    }
}

/// A source line: any object, free of scripts unless they are allowed.
pub open spec fn bulk_source(spec: ElasticsearchBackendSpec, i: int, op: JsonView) -> Result<
    JsonView,
    Seq<char>,
> {
    match spec.script_refusal(op) {
        Some(m) => Err(bulk_at(i) + ": "@ + m),
        None => Ok(op),
    }
}

/// One line of a bulk body.
pub open spec fn bulk_line(
    spec: ElasticsearchBackendSpec,
    fallback: Option<Seq<char>>,
    i: int,
    op: JsonView,
    source: bool,
) -> Result<JsonView, Seq<char>> {
    if !(op is Object) && !(op is Null) {
        Err(bulk_at(i) + " must be a JSON object"@)
    } else if source {
        bulk_source(spec, i, op)
    } else {
        bulk_action(spec, fallback, i, op)
    }
}

/// Whether a source line follows a line: it does behind every action but a delete.
pub open spec fn source_next(op: JsonView, source: bool) -> bool {
    match op {
        JsonView::Object(fields) => !source && fields[0].0 != "delete"@,
        _ => false,
    }
}

/// The lines of a bulk body from the operation `k` on. An action that names no index
/// gets the fallback, and without one the default index.
pub open spec fn bulk_lines(
    spec: ElasticsearchBackendSpec,
    fallback: Option<Seq<char>>,
    ops: Seq<JsonView>,
    k: int,
    source: bool,
) -> Result<Seq<JsonView>, Seq<char>>
    decreases ops.len() - k,
{
    if k >= ops.len() {
        if source {
            Err("bulk operations end with an action that has no source line"@)
        } else {
            Ok(Seq::empty())
        }
    } else {
        match bulk_line(spec, fallback, k, ops[k], source) {
            Err(m) => Err(m),
            Ok(line) => behind(
                seq![line],
                bulk_lines(spec, fallback, ops, k + 1, source_next(ops[k], source)),
            ),
        }
    }
}

/// Lines put before the lines of a result.
pub open spec fn behind(
    lines: Seq<JsonView>,
    rest: Result<Seq<JsonView>, Seq<char>>,
) -> Result<Seq<JsonView>, Seq<char>> {
    match rest {
        Ok(r) => Ok(lines + r),
        Err(m) => Err(m),
    }
}

proof fn lemma_behind(
    lines: Seq<JsonView>,
    line: JsonView,
    rest: Result<Seq<JsonView>, Seq<char>>,
)
    ensures
        behind(lines, behind(seq![line], rest)) == behind(lines.push(line), rest),
{
    if let Ok(r) = rest {
        assert(lines + (seq![line] + r) =~= lines.push(line) + r);
    }
}

/// Whether a text is the verb of a bulk action.
fn is_bulk_verb(action: &str) -> (r: bool)
    ensures
        r == bulk_verb(action@),
{
    same_text(action, "index") || same_text(action, "create") || same_text(action, "update")
        || same_text(action, "delete")
}

/// The start of a message on one of the bulk operations.
fn bulk_place(i: usize) -> (r: String)
    ensures
        r@ == bulk_at(i as int),
{
    "bulk operations[".to_owned().concat(decimal_text(i as u128).as_str()).concat("]")
}

/// Builds one action line.
fn build_action(
    spec: &ElasticsearchBackendSpec,
    fallback: Option<&str>,
    i: usize,
    op: &Json,
) -> (r: Result<Json, String>)
    ensures
        crate::json::value_result(r) == bulk_action(
            *spec,
            crate::text::opt_str(fallback),
            i as int,
            op@,
        ),
{
    broadcast use crate::json::group_json_views;

    let fields = match op {
        Json::Object(fields) => fields,
        _ => {
            return Err(bulk_place(i).concat(" must be an action object"));
        },
    };
    let ghost all = crate::json::fields_of(fields@);
    assert(op@ == JsonView::Object(all));
    if fields.len() != 1 {
        return Err(
            bulk_place(i).concat(
                " must name exactly one action (index, create, update, delete)",
            ),
        );
    }
    let action = fields[0].0.as_str();
    let meta = &fields[0].1;
    assert(all[0] == (action@, meta@));
    if !is_bulk_verb(action) {
        return Err(
            bulk_place(i).concat(" action `").concat(action).concat(
                "` is not one of index, create, update, delete",
            ),
        );
    }
    if !meta.is_object() {
        return Ok(op.clone());
    }
    let asked = match meta.get_str("_index") {
        Some(index) => Some(index),
        None => fallback,
    };
    match spec.resolve_index(asked) {
        Err(m) => Err(bulk_place(i).concat(": ").concat(m.as_str())),
        Ok(index) => {
            let stamped = meta.clone().with("_index", Json::Text(index));
            let mut line: Vec<(String, Json)> = Vec::new();
            line.push((action.to_owned(), stamped));
            proof {
                assert(crate::json::fields_of(line@) =~= seq![(action@, stamped@)]);
            }
            Ok(Json::Object(line))
        },
    }
}

/// Builds one line of a bulk body.
fn build_line(
    spec: &ElasticsearchBackendSpec,
    fallback: Option<&str>,
    i: usize,
    op: &Json,
    source: bool,
) -> (r: Result<Json, String>)
    ensures
        crate::json::value_result(r) == bulk_line(
            *spec,
            crate::text::opt_str(fallback),
            i as int,
            op@,
            source,
        ),
{
    let null = matches!(op, Json::Null);
    if !op.is_object() && !null {
        return Err(bulk_place(i).concat(" must be a JSON object"));
    }
    if source {
        match check_scripting(spec, op) {
            Err(m) => Err(bulk_place(i).concat(": ").concat(m.as_str())),
            Ok(_) => Ok(op.clone()),
        }
    } else {
        build_action(spec, fallback, i, op)
    }
}

/// Whether a source line follows an operation that passed as a line.
fn expects_source(op: &Json, source: bool) -> (r: bool)
    requires
        !source ==> (op@ matches JsonView::Object(fields) && fields.len() == 1),
    ensures
        r == source_next(op@, source),
{
    broadcast use crate::json::group_json_views;

    if source {
        return false;
    }
    match op {
        Json::Object(fields) => {
            let ghost all = crate::json::fields_of(fields@);
            assert(op@ == JsonView::Object(all));
            assert(all.len() == fields@.len());
            assert(all[0].0 == fields@[0].0@);
            !same_text(fields[0].0.as_str(), "delete")
        },
        _ => false,
    }
}

/// Builds the lines of a bulk body. An action that names no index gets the fallback, and
/// without one the default index.
pub fn plan_bulk(
    spec: &ElasticsearchBackendSpec,
    operations: &Vec<Json>,
    fallback: Option<&str>,
) -> (r: Result<Vec<Json>, String>)
    ensures
        crate::json::list_result(r) == bulk_lines(
            *spec,
            crate::text::opt_str(fallback),
            crate::json::values(operations@),
            0,
            false,
        ),
{
    broadcast use crate::json::group_json_views;

    let ghost ops = crate::json::values(operations@);
    let ghost own = crate::text::opt_str(fallback);
    let mut out: Vec<Json> = Vec::new();
    let mut source = false;
    let mut i: usize = 0;
    proof {
        let whole = bulk_lines(*spec, own, ops, 0, false);
        if let Ok(r) = whole {
            assert(crate::json::values(out@) + r =~= r);
        }
        assert(behind(crate::json::values(out@), whole) == whole);
    }
    while i < operations.len()
        invariant
            i <= operations@.len(),
            ops == crate::json::values(operations@),
            own == crate::text::opt_str(fallback),
            behind(crate::json::values(out@), bulk_lines(*spec, own, ops, i as int, source))
                == bulk_lines(*spec, own, ops, 0, false),
        decreases operations@.len() - i,
    {
        assert(ops[i as int] == operations@[i as int]@);
        let line = match build_line(spec, fallback, i, &operations[i], source) {
            Ok(line) => line,
            Err(m) => {
                return Err(m);
            },
        };
        let ghost before = out@;
        let ghost rest = bulk_lines(*spec, own, ops, i + 1, source_next(ops[i as int], source));
        proof {
            assert(bulk_lines(*spec, own, ops, i as int, source) == behind(seq![line@], rest));
            lemma_behind(crate::json::values(before), line@, rest);
            crate::json::lemma_values_push(before, line);
        }
        source = expects_source(&operations[i], source);
        out.push(line);
        i += 1;
    }
    if source {
        return Err("bulk operations end with an action that has no source line".to_owned());
    }
    assert(crate::json::values(out@) + Seq::<JsonView>::empty() =~= crate::json::values(out@));
    Ok(out)
}

/// The first line of a search: its index.
pub open spec fn search_header(index: Seq<char>) -> JsonView {
    JsonView::object().with("index"@, JsonView::Text(index))
}

/// The lines of a multi-search from the search `k` on: for each its index, resolved,
/// and its body.
pub open spec fn msearch_lines(
    spec: ElasticsearchBackendSpec,
    searches: Seq<JsonView>,
    k: int,
) -> Result<Seq<JsonView>, Seq<char>>
    decreases searches.len() - k,
{
    if k >= searches.len() {
        Ok(Seq::empty())
    } else {
        match spec.resolved_index(searches[k].get_text("index"@)) {
            Err(m) => Err("searches["@ + crate::text::decimal(k as nat) + "]: "@ + m),
            Ok(index) => match crate::body::search_body(spec, searches[k], true) {
                Err(m) => Err(m),
                Ok(body) => behind(
                    seq![search_header(index), body],
                    msearch_lines(spec, searches, k + 1),
                ),
            },
        }
    }
}

/// Builds the lines of a multi-search.
pub fn plan_msearch(spec: &ElasticsearchBackendSpec, searches: &Vec<Json>) -> (r: Result<
    Vec<Json>,
    String,
>)
    ensures
        crate::json::list_result(r) == msearch_lines(*spec, crate::json::values(searches@), 0),
{
    broadcast use crate::json::group_json_views;

    let ghost all = crate::json::values(searches@);
    let mut out: Vec<Json> = Vec::new();
    let mut i: usize = 0;
    proof {
        let whole = msearch_lines(*spec, all, 0);
        if let Ok(r) = whole {
            assert(crate::json::values(out@) + r =~= r);
        }
        assert(behind(crate::json::values(out@), whole) == whole);
    }
    while i < searches.len()
        invariant
            i <= searches@.len(),
            all == crate::json::values(searches@),
            behind(crate::json::values(out@), msearch_lines(*spec, all, i as int))
                == msearch_lines(*spec, all, 0),
        decreases searches@.len() - i,
    {
        assert(all[i as int] == searches@[i as int]@);
        let index = match spec.resolve_index(searches[i].get_str("index")) {
            Ok(index) => index,
            Err(m) => {
                return Err(
                    "searches[".to_owned().concat(decimal_text(i as u128).as_str()).concat(
                        "]: ",
                    ).concat(m.as_str()),
                );
            },
        };
        let body = match build_search_body(spec, &searches[i], true) {
            Ok(body) => body,
            Err(m) => {
                return Err(m);
            },
        };
        let header = Json::object().with("index", Json::text(index.as_str()));
        proof {
            let before = crate::json::values(out@);
            crate::json::lemma_values_push(out@, header);
            crate::json::lemma_values_push(out@.push(header), body);
            let rest = msearch_lines(*spec, all, i + 1);
            if let Ok(r) = rest {
                assert(before + (seq![header@, body@] + r) =~= before.push(header@).push(body@)
                    + r);
            }
            assert(behind(before, behind(seq![header@, body@], rest)) == behind(
                before.push(header@).push(body@),
                rest,
            ));
        }
        out.push(header);
        out.push(body);
        i += 1;
    }
    assert(crate::json::values(out@) + Seq::<JsonView>::empty() =~= crate::json::values(out@));
    Ok(out)
}

/// Whether the operation `i` of a bulk call stands where a source line belongs.
pub open spec fn source_at(ops: Seq<JsonView>, i: int) -> bool
    decreases i,
{
    if i <= 0 {
        false
    } else {
        source_next(ops[i - 1], source_at(ops, i - 1))
    }
}

proof fn lemma_bulk_lines(
    spec: ElasticsearchBackendSpec,
    fallback: Option<Seq<char>>,
    ops: Seq<JsonView>,
    k: int,
)
    requires
        0 <= k <= ops.len(),
        bulk_lines(spec, fallback, ops, k, source_at(ops, k)) is Ok,
    ensures
        !source_at(ops, ops.len() as int),
        bulk_lines(spec, fallback, ops, k, source_at(ops, k))->Ok_0.len() == ops.len() - k,
        forall|i: int|
            k <= i < ops.len() ==> #[trigger] bulk_line(spec, fallback, i, ops[i], source_at(ops, i)) == Ok::<
                JsonView,
                Seq<char>,
            >(bulk_lines(spec, fallback, ops, k, source_at(ops, k))->Ok_0[i - k]),
    decreases ops.len() - k,
{
    if k < ops.len() {
        lemma_bulk_lines(spec, fallback, ops, k + 1);
        let lines = bulk_lines(spec, fallback, ops, k, source_at(ops, k))->Ok_0;
        let rest = bulk_lines(spec, fallback, ops, k + 1, source_at(ops, k + 1))->Ok_0;
        assert forall|i: int| k <= i < ops.len() implies #[trigger] bulk_line(
            spec,
            fallback,
            i,
            ops[i],
            source_at(ops, i),
        ) == Ok::<JsonView, Seq<char>>(lines[i - k]) by {
            if i > k {
                assert(lines[i - k] == rest[i - k - 1]);
            }
        }
    }
}

/// Every line of an accepted bulk body is what it should be at its place. A source
/// line is passed on as it is, and carries no script unless scripts are allowed. An
/// action line names one verb, and where it has settings they name an index that is
/// a safe name and reachable: the one that the caller named there, else the fallback.
/// No action at the end lacks its source.
pub proof fn law_bulk_reaches_allowed_indices_only(
    spec: ElasticsearchBackendSpec,
    fallback: Option<Seq<char>>,
    ops: Seq<JsonView>,
)
    ensures
        bulk_lines(spec, fallback, ops, 0, false) matches Ok(lines) ==> {
            &&& lines.len() == ops.len()
            &&& !source_at(ops, ops.len() as int)
            &&& forall|i: int|
                0 <= i < ops.len() && source_at(ops, i) ==> {
                    &&& (#[trigger] lines[i]) == ops[i]
                    &&& spec.allow_scripting || crate::scripting::script_free(ops[i])
                }
            &&& forall|i: int|
                0 <= i < ops.len() && !source_at(ops, i) ==> {
                    &&& (#[trigger] lines[i]) matches JsonView::Object(fields)
                    &&& fields.len() == 1
                    &&& bulk_verb(fields[0].0)
                    &&& ops[i] is Object
                    &&& ops[i]->Object_0[0].1 is Object ==> fields[0].1 is Object
                    &&& fields[0].1 is Object ==> {
                        &&& fields[0].1.get_text("_index"@) matches Some(index)
                        &&& crate::config::safe_index_token(index)
                        &&& spec.reachable(index)
                        &&& action_index(ops[i]->Object_0[0].1, fallback) matches Some(asked)
                            ==> index == asked
                    }
                }
        },
{
    broadcast use crate::json::lemma_get_with;

    if let Ok(lines) = bulk_lines(spec, fallback, ops, 0, false) {
        lemma_bulk_lines(spec, fallback, ops, 0);
        assert forall|i: int| 0 <= i < ops.len() && source_at(ops, i) implies (#[trigger] lines[i])
            == ops[i] && (spec.allow_scripting || crate::scripting::script_free(ops[i])) by {
            crate::scripting::law_search_finds_every_script(ops[i]);
            assert(bulk_line(spec, fallback, i, ops[i], source_at(ops, i)) == Ok::<JsonView, Seq<char>>(
                lines[i],
            ));
        }
        assert forall|i: int| 0 <= i < ops.len() && !source_at(ops, i) implies ({
            &&& (#[trigger] lines[i]) matches JsonView::Object(fields)
            &&& fields.len() == 1
            &&& bulk_verb(fields[0].0)
            &&& ops[i] is Object
            &&& ops[i]->Object_0[0].1 is Object ==> fields[0].1 is Object
            &&& fields[0].1 is Object ==> {
                &&& fields[0].1.get_text("_index"@) matches Some(index)
                &&& crate::config::safe_index_token(index)
                &&& spec.reachable(index)
                &&& action_index(ops[i]->Object_0[0].1, fallback) matches Some(asked) ==> index
                    == asked
            }
        }) by {
            assert(bulk_line(spec, fallback, i, ops[i], source_at(ops, i)) == Ok::<JsonView, Seq<char>>(
                lines[i],
            ));
            let meta = ops[i]->Object_0[0].1;
            if meta is Object {
                let asked = action_index(meta, fallback);
                let index = spec.resolved_index(asked)->Ok_0;
                crate::config::law_resolved_index_is_safe(spec, asked);
                assert(meta.with("_index"@, JsonView::Text(index)).get("_index"@) == Some(
                    JsonView::Text(index),
                ));
            }
        }
    }
}

/// The lines of an accepted bulk body are valid values.
pub proof fn lemma_bulk_wf(
    spec: ElasticsearchBackendSpec,
    fallback: Option<Seq<char>>,
    ops: Seq<JsonView>,
)
    requires
        bulk_lines(spec, fallback, ops, 0, false) is Ok,
        forall|i: int| 0 <= i < ops.len() ==> (#[trigger] ops[i]).wf(),
    ensures
        forall|i: int|
            0 <= i < bulk_lines(spec, fallback, ops, 0, false)->Ok_0.len() ==> (#[trigger] bulk_lines(
                spec,
                fallback,
                ops,
                0,
                false,
            )->Ok_0[i]).wf(),
{
    broadcast use crate::json::lemma_with_wf;

    lemma_bulk_lines(spec, fallback, ops, 0);
    let lines = bulk_lines(spec, fallback, ops, 0, false)->Ok_0;
    assert forall|i: int| 0 <= i < lines.len() implies (#[trigger] lines[i]).wf() by {
        assert(bulk_line(spec, fallback, i, ops[i], source_at(ops, i)) == Ok::<JsonView, Seq<char>>(lines[i]));
        assert(ops[i].wf());
        if !source_at(ops, i) {
            let entry = ops[i]->Object_0[0];
            if entry.1 is Object {
                assert(entry.1.wf());
                let index = spec.resolved_index(action_index(entry.1, fallback))->Ok_0;
                let stamped = entry.1.with("_index"@, JsonView::Text(index));
                assert(stamped.wf());
                assert(lines[i] == JsonView::Object(seq![(entry.0, stamped)]));
            }
        }
    }
}

proof fn lemma_msearch_lines(spec: ElasticsearchBackendSpec, searches: Seq<JsonView>, k: int)
    requires
        0 <= k <= searches.len(),
        msearch_lines(spec, searches, k) is Ok,
    ensures
        msearch_lines(spec, searches, k)->Ok_0.len() == 2 * (searches.len() - k),
        forall|i: int|
            k <= i < searches.len() ==> {
                let lines = msearch_lines(spec, searches, k)->Ok_0;
                let s = #[trigger] searches[i];
                &&& spec.resolved_index(s.get_text("index"@)) matches Ok(index)
                &&& lines[2 * (i - k)] == search_header(index)
                &&& crate::body::search_body(spec, s, true) == Ok::<JsonView, Seq<char>>(
                    lines[2 * (i - k) + 1],
                )
            },
    decreases searches.len() - k,
{
    if k < searches.len() {
        lemma_msearch_lines(spec, searches, k + 1);
        let lines = msearch_lines(spec, searches, k)->Ok_0;
        let rest = msearch_lines(spec, searches, k + 1)->Ok_0;
        assert forall|i: int| k <= i < searches.len() implies ({
            let s = #[trigger] searches[i];
            &&& spec.resolved_index(s.get_text("index"@)) matches Ok(index)
            &&& lines[2 * (i - k)] == search_header(index)
            &&& crate::body::search_body(spec, s, true) == Ok::<JsonView, Seq<char>>(
                lines[2 * (i - k) + 1],
            )
        }) by {
            if i > k {
                assert(lines[2 * (i - k)] == rest[2 * (i - k - 1)]);
                assert(lines[2 * (i - k) + 1] == rest[2 * (i - k - 1) + 1]);
            }
        }
    }
}

/// An accepted multi-search has two lines for each search: its index, which is a
/// safe name and reachable, and its body, which is the body of that search alone and
/// carries no script unless scripts are allowed.
pub proof fn law_msearch_reaches_allowed_indices_only(
    spec: ElasticsearchBackendSpec,
    searches: Seq<JsonView>,
)
    ensures
        msearch_lines(spec, searches, 0) matches Ok(lines) ==> {
            &&& lines.len() == 2 * searches.len()
            &&& forall|i: int|
                0 <= i < searches.len() ==> {
                    let s = #[trigger] searches[i];
                    &&& lines[2 * i].get_text("index"@) matches Some(index)
                    &&& crate::config::safe_index_token(index)
                    &&& spec.reachable(index)
                    &&& lines[2 * i + 1] == crate::body::search_fields(spec, s, true)
                    &&& spec.allow_scripting || crate::scripting::script_free(lines[2 * i + 1])
                }
        },
{
    broadcast use crate::json::lemma_get_with;

    if let Ok(lines) = msearch_lines(spec, searches, 0) {
        lemma_msearch_lines(spec, searches, 0);
        assert forall|i: int| 0 <= i < searches.len() implies ({
            let s = #[trigger] searches[i];
            &&& lines[2 * i].get_text("index"@) matches Some(index)
            &&& crate::config::safe_index_token(index)
            &&& spec.reachable(index)
            &&& lines[2 * i + 1] == crate::body::search_fields(spec, s, true)
            &&& spec.allow_scripting || crate::scripting::script_free(lines[2 * i + 1])
        }) by {
            let s = searches[i];
            if !spec.allow_scripting {
                crate::body::law_accepted_search_is_script_free(spec, s, true);
            }
            let arg = s.get_text("index"@);
            crate::config::law_resolved_index_is_safe(spec, arg);
            let index = spec.resolved_index(arg)->Ok_0;
            assert(search_header(index).get("index"@) == Some(JsonView::Text(index)));
        }
    }
}

/// The lines of an accepted multi-search are valid values.
pub proof fn lemma_msearch_wf(spec: ElasticsearchBackendSpec, searches: Seq<JsonView>)
    requires
        msearch_lines(spec, searches, 0) is Ok,
        forall|i: int| 0 <= i < searches.len() ==> (#[trigger] searches[i]).wf(),
    ensures
        forall|i: int|
            0 <= i < msearch_lines(spec, searches, 0)->Ok_0.len() ==> (#[trigger] msearch_lines(
                spec,
                searches,
                0,
            )->Ok_0[i]).wf(),
{
    broadcast use crate::json::lemma_with_wf;

    lemma_msearch_lines(spec, searches, 0);
    let lines = msearch_lines(spec, searches, 0)->Ok_0;
    assert forall|i: int| 0 <= i < lines.len() implies (#[trigger] lines[i]).wf() by {
        let m = i / 2;
        let s = searches[m];
        assert(s.wf());
        if i % 2 == 0 {
            assert(i == 2 * m);
            let index = spec.resolved_index(s.get_text("index"@))->Ok_0;
            assert(search_header(index).wf());
        } else {
            assert(i == 2 * m + 1);
            crate::body::lemma_search_wf(spec, s, true);
        }
    }
}

/// The bytes of a text of lines.
pub open spec fn line_bytes(lines: Result<Seq<JsonView>, Seq<char>>) -> Result<Seq<u8>, Seq<char>> {
    match lines {
        Ok(l) => Ok(encode_utf8(ndjson(l))),
        Err(m) => Err(m),
    }
}

/// The bytes of a result.
pub open spec fn byte_result(r: Result<Vec<u8>, String>) -> Result<Seq<u8>, Seq<char>> {
    match r {
        Ok(b) => Ok(b@),
        Err(m) => Err(m@),
    }
}

/// Assembles the body of a bulk call: its lines as `plan_bulk` builds them, one
/// value to a line. An action that names no index gets the default index.
pub fn assemble_bulk_ndjson(spec: &ElasticsearchBackendSpec, operations: &Vec<Json>) -> (r: Result<
    Vec<u8>,
    String,
>)
    requires
        forall|i: int| 0 <= i < operations@.len() ==> (#[trigger] operations@[i])@.wf(),
    ensures
        byte_result(r) == line_bytes(
            bulk_lines(*spec, None, crate::json::values(operations@), 0, false),
        ),
        r is Ok ==> line_feeds(
            ndjson(bulk_lines(*spec, None, crate::json::values(operations@), 0, false)->Ok_0),
        ) == operations@.len(),
{
    let ghost ops = crate::json::values(operations@);
    match plan_bulk(spec, operations, None) {
        Err(m) => Err(m),
        Ok(lines) => {
            proof {
                assert forall|i: int| 0 <= i < ops.len() implies (#[trigger] ops[i]).wf() by {
                    assert(ops[i] == operations@[i]@);
                }
                lemma_bulk_wf(*spec, None, ops);
                lemma_bulk_lines(*spec, None, ops, 0);
                assert forall|i: int| 0 <= i < lines@.len() implies (#[trigger] lines@[i])@.wf() by {
                    assert(crate::json::values(lines@)[i] == lines@[i]@);
                }
            }
            Ok(slice_to_vec(write_lines(&lines).as_str().as_bytes()))
        },
    }
}

/// Assembles the body of a multi-search: its lines as `plan_msearch` builds them,
/// one value to a line.
pub fn assemble_msearch_ndjson(spec: &ElasticsearchBackendSpec, searches: &Vec<Json>) -> (r: Result<
    Vec<u8>,
    String,
>)
    requires
        forall|i: int| 0 <= i < searches@.len() ==> (#[trigger] searches@[i])@.wf(),
    ensures
        byte_result(r) == line_bytes(msearch_lines(*spec, crate::json::values(searches@), 0)),
        r is Ok ==> line_feeds(
            ndjson(msearch_lines(*spec, crate::json::values(searches@), 0)->Ok_0),
        ) == 2 * searches@.len(),
{
    let ghost all = crate::json::values(searches@);
    match plan_msearch(spec, searches) {
        Err(m) => Err(m),
        Ok(lines) => {
            proof {
                assert forall|i: int| 0 <= i < all.len() implies (#[trigger] all[i]).wf() by {
                    assert(all[i] == searches@[i]@);
                }
                lemma_msearch_wf(*spec, all);
                lemma_msearch_lines(*spec, all, 0);
                assert forall|i: int| 0 <= i < lines@.len() implies (#[trigger] lines@[i])@.wf() by {
                    assert(crate::json::values(lines@)[i] == lines@[i]@);
                }
            }
            Ok(slice_to_vec(write_lines(&lines).as_str().as_bytes()))
        },
    }
}

/// The lines of a body come one behind the other: what is written of two runs of lines
/// is what is written of the first and then of the second, and what is written of one
/// line is its JSON text and a line feed.
pub proof fn law_lines_are_written_one_behind_the_other(a: Seq<JsonView>, b: Seq<JsonView>, v: JsonView)
    ensures
        ndjson(a + b) == ndjson(a) + ndjson(b),
        ndjson(seq![v]) == crate::wire::json_text(v) + "\n"@,
        ndjson(Seq::empty()) == Seq::<char>::empty(),
    decreases b.len(),
{
    reveal_strlit("\n");
    assert("\n"@ =~= seq!['\n']);
    assert(seq![v].drop_last() =~= Seq::<JsonView>::empty());
    assert(ndjson(seq![v].drop_last()) == Seq::<char>::empty());
    assert(ndjson(seq![v]) =~= crate::wire::json_text(v) + "\n"@);
    if b.len() == 0 {
        assert(a + b =~= a);
        assert(ndjson(a) + ndjson(b) =~= ndjson(a));
    } else {
        law_lines_are_written_one_behind_the_other(a, b.drop_last(), v);
        assert((a + b).drop_last() =~= a + b.drop_last());
        assert(ndjson(a + b) =~= ndjson(a) + ndjson(b));
    }
}

/// Where source lines stand among the operations of an accepted bulk call. The first
/// operation is an action. Behind an action stands its source, unless it deletes, and
/// behind a source or a delete the next action. The last operation is none that lacks
/// its source.
pub proof fn law_sources_follow_their_actions(
    spec: ElasticsearchBackendSpec,
    fallback: Option<Seq<char>>,
    ops: Seq<JsonView>,
    i: int,
)
    requires
        bulk_lines(spec, fallback, ops, 0, false) is Ok,
        0 <= i < ops.len(),
    ensures
        !source_at(ops, 0),
        !source_at(ops, ops.len() as int),
        source_at(ops, i + 1) <==> !source_at(ops, i) && ops[i].get("delete"@) is None,
{
    lemma_bulk_lines(spec, fallback, ops, 0);
    assert(bulk_line(spec, fallback, i, ops[i], source_at(ops, i)) is Ok);
    if !source_at(ops, i) {
        let fields = ops[i]->Object_0;
        assert(fields.drop_first() =~= Seq::empty());
        assert(crate::json::field(fields.drop_first(), "delete"@) is None);
    }
}

/// The lines of an accepted bulk body, one for each operation of the caller, in their
/// order. A source line is the caller's own. An action line has one verb, the caller's.
/// Its settings agree with the caller's in every field but the index, and the index is
/// the one that they resolve to: the one that the caller named there, else the fallback,
/// else the default index. Settings that are no object are the caller's own.
pub proof fn law_bulk_lines_keep_what_the_caller_wrote(
    spec: ElasticsearchBackendSpec,
    fallback: Option<Seq<char>>,
    ops: Seq<JsonView>,
    i: int,
    key: Seq<char>,
)
    requires
        0 <= i < ops.len(),
    ensures
        bulk_lines(spec, fallback, ops, 0, false) matches Ok(lines) ==> {
            &&& lines.len() == ops.len()
            &&& source_at(ops, i) ==> lines[i] == ops[i]
            &&& !source_at(ops, i) ==> {
                &&& ops[i] matches JsonView::Object(asked)
                &&& lines[i] matches JsonView::Object(sent)
                &&& asked.len() == 1 && sent.len() == 1
                &&& sent[0].0 == asked[0].0
                &&& sent[0].0 == "index"@ || sent[0].0 == "create"@ || sent[0].0 == "update"@
                    || sent[0].0 == "delete"@
                &&& !(asked[0].1 is Object) ==> lines[i] == ops[i]
                &&& asked[0].1 is Object ==> {
                    &&& sent[0].1 is Object
                    &&& key != "_index"@ ==> sent[0].1.get(key) == asked[0].1.get(key)
                    &&& sent[0].1.get("_index"@) matches Some(JsonView::Text(index))
                    &&& spec.resolved_index(
                        match asked[0].1.get("_index"@) {
                            Some(JsonView::Text(own)) => Some(own),
                            _ => fallback,
                        },
                    ) == Ok::<Seq<char>, Seq<char>>(index)
                }
            }
        },
{
    broadcast use crate::json::lemma_get_with;

    if let Ok(lines) = bulk_lines(spec, fallback, ops, 0, false) {
        lemma_bulk_lines(spec, fallback, ops, 0);
        assert(bulk_line(spec, fallback, i, ops[i], source_at(ops, i)) == Ok::<
            JsonView,
            Seq<char>,
        >(lines[i]));
        if !source_at(ops, i) {
            let meta = ops[i]->Object_0[0].1;
            if meta is Object {
                let index = spec.resolved_index(action_index(meta, fallback))->Ok_0;
                let stamped = meta.with("_index"@, JsonView::Text(index));
                assert(stamped.get(key) == if key == "_index"@ {
                    Some(JsonView::Text(index))
                } else {
                    meta.get(key)
                });
                assert(stamped.get("_index"@) == Some(JsonView::Text(index)));
            }
        }
    }
}

/// An operation that may stand where an action belongs: an object that names one verb,
/// and whose settings, if they are an object, name an index that resolves.
pub open spec fn action_accepted(
    spec: ElasticsearchBackendSpec,
    fallback: Option<Seq<char>>,
    op: JsonView,
) -> bool {
    &&& op matches JsonView::Object(fields)
    &&& fields.len() == 1
    &&& fields[0].0 == "index"@ || fields[0].0 == "create"@ || fields[0].0 == "update"@
        || fields[0].0 == "delete"@
    &&& fields[0].1 is Object ==> spec.resolved_index(
        match fields[0].1.get("_index"@) {
            Some(JsonView::Text(own)) => Some(own),
            _ => fallback,
        },
    ) is Ok
}

/// An operation that may stand where a source belongs: an object or null, without a
/// script unless scripts are allowed.
pub open spec fn source_accepted(spec: ElasticsearchBackendSpec, op: JsonView) -> bool {
    &&& op is Object || op is Null
    &&& spec.allow_scripting || crate::scripting::script_free(op)
}

proof fn lemma_line_accepted(
    spec: ElasticsearchBackendSpec,
    fallback: Option<Seq<char>>,
    i: int,
    op: JsonView,
    source: bool,
)
    ensures
        bulk_line(spec, fallback, i, op, source) is Ok <==> if source {
            source_accepted(spec, op)
        } else {
            action_accepted(spec, fallback, op)
        },
{
    crate::scripting::law_search_finds_every_script(op);
}

proof fn lemma_bulk_accepted(
    spec: ElasticsearchBackendSpec,
    fallback: Option<Seq<char>>,
    ops: Seq<JsonView>,
    k: int,
)
    requires
        0 <= k <= ops.len(),
        !source_at(ops, ops.len() as int),
        forall|i: int|
            k <= i < ops.len() ==> #[trigger] bulk_line(
                spec,
                fallback,
                i,
                ops[i],
                source_at(ops, i),
            ) is Ok,
    ensures
        bulk_lines(spec, fallback, ops, k, source_at(ops, k)) is Ok,
    decreases ops.len() - k,
{
    if k < ops.len() {
        assert(bulk_line(spec, fallback, k, ops[k], source_at(ops, k)) is Ok);
        lemma_bulk_accepted(spec, fallback, ops, k + 1);
    }
}

/// A bulk call is accepted exactly where each of its operations may stand at its place
/// and none at the end lacks its source.
pub proof fn law_bulk_is_accepted_line_by_line(
    spec: ElasticsearchBackendSpec,
    fallback: Option<Seq<char>>,
    ops: Seq<JsonView>,
)
    ensures
        bulk_lines(spec, fallback, ops, 0, false) is Ok <==> {
            &&& !source_at(ops, ops.len() as int)
            &&& forall|i: int|
                0 <= i < ops.len() ==> if source_at(ops, i) {
                    source_accepted(spec, #[trigger] ops[i])
                } else {
                    action_accepted(spec, fallback, ops[i])
                }
        },
{
    assert forall|i: int| 0 <= i < ops.len() implies (#[trigger] bulk_line(
        spec,
        fallback,
        i,
        ops[i],
        source_at(ops, i),
    ) is Ok <==> if source_at(ops, i) {
        source_accepted(spec, ops[i])
    } else {
        action_accepted(spec, fallback, ops[i])
    }) by {
        lemma_line_accepted(spec, fallback, i, ops[i], source_at(ops, i));
    }
    if bulk_lines(spec, fallback, ops, 0, false) is Ok {
        lemma_bulk_lines(spec, fallback, ops, 0);
        assert forall|i: int| 0 <= i < ops.len() implies if source_at(ops, i) {
            source_accepted(spec, #[trigger] ops[i])
        } else {
            action_accepted(spec, fallback, ops[i])
        } by {
            assert(bulk_line(spec, fallback, i, ops[i], source_at(ops, i)) is Ok);
        }
    }
    if !source_at(ops, ops.len() as int) && forall|i: int|
        0 <= i < ops.len() ==> if source_at(ops, i) {
            source_accepted(spec, #[trigger] ops[i])
        } else {
            action_accepted(spec, fallback, ops[i])
        } {
        assert forall|i: int| 0 <= i < ops.len() implies #[trigger] bulk_line(
            spec,
            fallback,
            i,
            ops[i],
            source_at(ops, i),
        ) is Ok by {
            let op = ops[i];
        }
        lemma_bulk_accepted(spec, fallback, ops, 0);
    }
}

proof fn lemma_bulk_refused(
    spec: ElasticsearchBackendSpec,
    fallback: Option<Seq<char>>,
    ops: Seq<JsonView>,
    k: int,
    i: int,
)
    requires
        0 <= k <= i < ops.len(),
        bulk_line(spec, fallback, i, ops[i], source_at(ops, i)) is Err,
        forall|j: int|
            k <= j < i ==> #[trigger] bulk_line(spec, fallback, j, ops[j], source_at(ops, j)) is Ok,
    ensures
        bulk_lines(spec, fallback, ops, k, source_at(ops, k)) == Err::<Seq<JsonView>, Seq<char>>(
            bulk_line(spec, fallback, i, ops[i], source_at(ops, i))->Err_0,
        ),
    decreases i - k,
{
    if k < i {
        assert(bulk_line(spec, fallback, k, ops[k], source_at(ops, k)) is Ok);
        lemma_bulk_refused(spec, fallback, ops, k + 1, i);
    }
}

/// A bulk call that is refused names the place of the first operation that may not stand
/// where it does, and what is wrong with it there.
pub proof fn law_bulk_names_the_first_bad_operation(
    spec: ElasticsearchBackendSpec,
    fallback: Option<Seq<char>>,
    ops: Seq<JsonView>,
    i: int,
)
    requires
        0 <= i < ops.len(),
        if source_at(ops, i) {
            !source_accepted(spec, ops[i])
        } else {
            !action_accepted(spec, fallback, ops[i])
        },
        forall|j: int|
            0 <= j < i ==> if source_at(ops, j) {
                source_accepted(spec, #[trigger] ops[j])
            } else {
                action_accepted(spec, fallback, ops[j])
            },
    ensures
        bulk_lines(spec, fallback, ops, 0, false) matches Err(m) && {
            let place = "bulk operations["@ + crate::text::decimal(i as nat) + "]"@;
            if !(ops[i] is Object) && !(ops[i] is Null) {
                m == place + " must be a JSON object"@
            } else if source_at(ops, i) {
                m == place + ": "@ + spec.script_refusal(ops[i])->0
            } else {
                match ops[i] {
                    JsonView::Object(fields) => if fields.len() != 1 {
                        m == place
                            + " must name exactly one action (index, create, update, delete)"@
                    } else if fields[0].0 != "index"@ && fields[0].0 != "create"@ && fields[0].0
                        != "update"@ && fields[0].0 != "delete"@ {
                        m == place + " action `"@ + fields[0].0
                            + "` is not one of index, create, update, delete"@
                    } else {
                        m == place + ": "@ + spec.resolved_index(
                            match fields[0].1.get("_index"@) {
                                Some(JsonView::Text(own)) => Some(own),
                                _ => fallback,
                            },
                        )->Err_0
                    },
                    _ => m == place + " must be an action object"@,
                }
            }
        },
{
    lemma_line_accepted(spec, fallback, i, ops[i], source_at(ops, i));
    assert forall|j: int| 0 <= j < i implies #[trigger] bulk_line(
        spec,
        fallback,
        j,
        ops[j],
        source_at(ops, j),
    ) is Ok by {
        let op = ops[j];
        lemma_line_accepted(spec, fallback, j, op, source_at(ops, j));
    }
    lemma_bulk_refused(spec, fallback, ops, 0, i);
    crate::scripting::law_search_finds_every_script(ops[i]);
}

/// A bulk call whose last action lacks its source, and in which nothing else is wrong, is
/// refused for that.
pub proof fn law_bulk_wants_the_last_source(
    spec: ElasticsearchBackendSpec,
    fallback: Option<Seq<char>>,
    ops: Seq<JsonView>,
)
    requires
        source_at(ops, ops.len() as int),
        forall|j: int|
            0 <= j < ops.len() ==> if source_at(ops, j) {
                source_accepted(spec, #[trigger] ops[j])
            } else {
                action_accepted(spec, fallback, ops[j])
            },
    ensures
        bulk_lines(spec, fallback, ops, 0, false) == Err::<Seq<JsonView>, Seq<char>>(
            "bulk operations end with an action that has no source line"@,
        ),
{
    lemma_last_source(spec, fallback, ops, 0);
}

proof fn lemma_last_source(
    spec: ElasticsearchBackendSpec,
    fallback: Option<Seq<char>>,
    ops: Seq<JsonView>,
    k: int,
)
    requires
        0 <= k <= ops.len(),
        source_at(ops, ops.len() as int),
        forall|j: int|
            k <= j < ops.len() ==> if source_at(ops, j) {
                source_accepted(spec, #[trigger] ops[j])
            } else {
                action_accepted(spec, fallback, ops[j])
            },
    ensures
        bulk_lines(spec, fallback, ops, k, source_at(ops, k)) == Err::<Seq<JsonView>, Seq<char>>(
            "bulk operations end with an action that has no source line"@,
        ),
    decreases ops.len() - k,
{
    if k < ops.len() {
        let op = ops[k];
        lemma_line_accepted(spec, fallback, k, op, source_at(ops, k));
        lemma_last_source(spec, fallback, ops, k + 1);
    }
}

/// An accepted multi-search sends for each search, in the caller's order, a line that
/// holds its index and nothing else, and the body that the search has alone, with a
/// page. The index is the one that the search names, else the default one.
pub proof fn law_msearch_sends_each_search_as_it_is_alone(
    spec: ElasticsearchBackendSpec,
    searches: Seq<JsonView>,
    i: int,
    key: Seq<char>,
)
    requires
        0 <= i < searches.len(),
    ensures
        msearch_lines(spec, searches, 0) matches Ok(lines) ==> {
            &&& lines.len() == 2 * searches.len()
            &&& lines[2 * i] is Object
            &&& lines[2 * i].get("index"@) matches Some(JsonView::Text(index))
            &&& lines[2 * i].get(key) is Some ==> key == "index"@
            &&& spec.resolved_index(
                match searches[i].get("index"@) {
                    Some(JsonView::Text(own)) => Some(own),
                    _ => None,
                },
            ) == Ok::<Seq<char>, Seq<char>>(index)
            &&& crate::body::search_body(spec, searches[i], true) == Ok::<JsonView, Seq<char>>(
                lines[2 * i + 1],
            )
        },
{
    broadcast use crate::json::lemma_get_with;

    if let Ok(lines) = msearch_lines(spec, searches, 0) {
        lemma_msearch_lines(spec, searches, 0);
        let s = searches[i];
        let index = spec.resolved_index(s.get_text("index"@))->Ok_0;
        assert(search_header(index).get("index"@) == Some(JsonView::Text(index)));
        assert(search_header(index).get(key) is Some ==> key == "index"@);
    }
}

/// The first search of a multi-search from `k` on that has no index, or that may not be
/// sent, is what the multi-search is refused for.
pub proof fn law_msearch_is_refused_for_its_first_bad_search(
    spec: ElasticsearchBackendSpec,
    searches: Seq<JsonView>,
    k: int,
)
    requires
        0 <= k <= searches.len(),
    ensures
        k == searches.len() ==> msearch_lines(spec, searches, k) is Ok,
        k < searches.len() ==> {
            let index = spec.resolved_index(
                match searches[k].get("index"@) {
                    Some(JsonView::Text(own)) => Some(own),
                    _ => None,
                },
            );
            let body = crate::body::search_body(spec, searches[k], true);
            let here = msearch_lines(spec, searches, k);
            let rest = msearch_lines(spec, searches, k + 1);
            &&& index matches Err(m) ==> here == Err::<Seq<JsonView>, Seq<char>>(
                "searches["@ + crate::text::decimal(k as nat) + "]: "@ + m,
            )
            &&& index is Ok ==> (body matches Err(m) ==> here == Err::<Seq<JsonView>, Seq<char>>(m))
            &&& index is Ok && body is Ok ==> {
                &&& rest matches Err(m) ==> here == Err::<Seq<JsonView>, Seq<char>>(m)
                &&& rest is Ok ==> here is Ok
            }
        },
{
}

} // verus!
