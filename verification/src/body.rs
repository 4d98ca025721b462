//! The bodies of search requests.

use vstd::prelude::*;
use vstd::string::StringExecFns;

use crate::config::{ElasticsearchBackendSpec, KnnConfig, VectorElement};
use crate::json::{clone_opt, Json, JsonNumber, JsonView};
use crate::scripting::check_scripting;
use crate::text::decimal_text;
use crate::wire::as_float;

verus! {

/// The lesser of a value and its ceiling.
pub open spec fn clamped(value: u64, ceiling: u64) -> u64 {
    if value <= ceiling {
        value
    } else {
        ceiling
    }
}

/// Holds a value down to its ceiling.
pub fn clamp(value: u64, ceiling: u64) -> (r: u64)
    ensures
        r == clamped(value, ceiling),
{
    if value <= ceiling {
        value
    } else {
        ceiling
    }
}

/// An optional number held down to its ceiling.
pub open spec fn clamped_number(value: Option<u64>, ceiling: u64) -> Option<JsonView> {
    match value {
        Some(n) => Some(JsonView::number(clamped(n, ceiling))),
        None => None,
    }
}

/// An optional number held down to its ceiling.
fn clamp_number(value: Option<u64>, ceiling: u64) -> (r: Option<Json>)
    ensures
        crate::json::opt_value(r) == clamped_number(value, ceiling),
{
    match value {
        Some(n) => Some(Json::number(clamp(n, ceiling))),
        None => None,
    }
}

/// The search that some arguments ask for: the query, and with paging the page, the
/// order, the fields and the aggregations.
pub open spec fn search_fields(
    spec: ElasticsearchBackendSpec,
    args: JsonView,
    include_paging: bool,
) -> JsonView {
    let query = JsonView::object().with_some("query"@, args.get("query"@));
    if include_paging {
        query.with_some("size"@, clamped_number(args.get_u64("size"@), spec.max_size)).with_some(
            "from"@,
            clamped_number(args.get_u64("from"@), spec.max_from),
        ).with_some("sort"@, args.get("sort"@)).with_some(
            "_source"@,
            args.get("source"@),
        ).with_some("aggs"@, args.get("aggs"@))
    } else {
        query
    }
}

/// The body of a search, or why there is none.
pub open spec fn search_body(
    spec: ElasticsearchBackendSpec,
    args: JsonView,
    include_paging: bool,
) -> Result<JsonView, Seq<char>> {
    match spec.script_refusal(args) {
        Some(m) => Err(m),
        None => Ok(search_fields(spec, args, include_paging)),
    }
}

/// Builds the body of a search from the arguments of a call.
pub fn build_search_body(
    spec: &ElasticsearchBackendSpec,
    args: &Json,
    include_paging: bool,
) -> (r: Result<Json, String>)
    ensures
        crate::json::value_result(r) == search_body(*spec, args@, include_paging),
{
    if let Err(m) = check_scripting(spec, args) {
        return Err(m);
    }
    let query = Json::object().with_some("query", clone_opt(args.get("query")));
    if !include_paging {
        return Ok(query);
    }
    let size = clamp_number(args.get_u64("size"), spec.max_size);
    let from = clamp_number(args.get_u64("from"), spec.max_from);
    Ok(
        query.with_some("size", size).with_some("from", from).with_some(
            "sort",
            clone_opt(args.get("sort")),
        ).with_some("_source", clone_opt(args.get("source"))).with_some(
            "aggs",
            clone_opt(args.get("aggs")),
        ),
    )
}

/// A query vector of a call: numbers, each in floating point form.
pub open spec fn numeric_vector(items: Seq<JsonView>) -> Result<Seq<JsonView>, Seq<char>> {
    match crate::text::first_from(0, items.len() as int, |i: int| !(items[i] is Number)) {
        Some(i) => Err(
            "`query_vector["@ + crate::text::decimal(i as nat) + "]` must be a finite number"@,
        ),
        None => Ok(
            items.map_values(
                |v: JsonView| JsonView::Number(crate::wire::float_number(v->Number_0)),
            ),
        ),
    }
}

/// A configured element of a query vector.
pub open spec fn element_value(e: VectorElement) -> JsonView {
    match e {
        VectorElement::Finite(n) => JsonView::Number(JsonNumber::Float(n)),
        VectorElement::NonFinite => JsonView::Null,
    }
}

/// The query vector of a call, or else the configured one.
pub open spec fn query_vector(knn: KnnConfig, args: JsonView) -> Result<Seq<JsonView>, Seq<char>> {
    match args.get("query_vector"@) {
        Some(JsonView::Array(items)) => if items.len() == 0 {
            Err("`query_vector` must be a non-empty array of numbers"@)
        } else {
            numeric_vector(items)
        },
        Some(_) => Err("`query_vector` must be an array of numbers"@),
        None => match knn.query_vector {
            Some(v) if v@.len() > 0 => Ok(v@.map_values(|e: VectorElement| element_value(e))),
            _ => Err(
                "missing required `query_vector` argument (no literal knn.query_vector configured)"@,
            ),
        },
    }
}

/// Puts the elements of a vector into floating point form.
fn lower_vector(items: &Vec<Json>) -> (r: Result<Vec<Json>, String>)
    requires
        forall|i: int| 0 <= i < items@.len() ==> (#[trigger] items@[i])@.wf(),
    ensures
        crate::json::list_result(r) == numeric_vector(crate::json::values(items@)),
        r matches Ok(v) ==> forall|i: int| 0 <= i < v@.len() ==> (#[trigger] v@[i])@.wf(),
{
    broadcast use crate::json::group_json_views;

    let ghost all = crate::json::values(items@);
    let ghost bad = |i: int| !(all[i] is Number);
    let ghost lowered = all.map_values(
        |v: JsonView| JsonView::Number(crate::wire::float_number(v->Number_0)),
    );
    let ghost n = items@.len() as int;
    let mut out: Vec<Json> = Vec::new();
    let mut i: usize = 0;
    while i < items.len()
        invariant
            n == items@.len(),
            i <= n,
            all == crate::json::values(items@),
            bad == |i: int| !(all[i] is Number),
            lowered == all.map_values(
                |v: JsonView| JsonView::Number(crate::wire::float_number(v->Number_0)),
            ),
            forall|i: int| 0 <= i < items@.len() ==> (#[trigger] items@[i])@.wf(),
            crate::text::first_from(0, n, bad) == crate::text::first_from(i as int, n, bad),
            crate::json::values(out@) == lowered.take(i as int),
            forall|j: int| 0 <= j < out@.len() ==> (#[trigger] out@[j])@.wf(),
        decreases items@.len() - i,
    {
        assert(all[i as int] == items@[i as int]@);
        match &items[i] {
            Json::Number(k) => {
                let v = Json::Number(as_float(k));
                proof {
                    assert(lowered.take(i + 1) =~= lowered.take(i as int).push(lowered[i as int]));
                }
                out.push(v);
            },
            _ => {
                let at = decimal_text(i as u128);
                return Err(
                    "`query_vector[".to_owned().concat(at.as_str()).concat(
                        "]` must be a finite number",
                    ),
                );
            },
        }
        i += 1;
    }
    assert(lowered.take(n) =~= lowered);
    Ok(out)
}

/// The configured vector as JSON values.
fn literal_vector(v: &Vec<VectorElement>) -> (r: Vec<Json>)
    ensures
        crate::json::values(r@) == v@.map_values(|e: VectorElement| element_value(e)),
        r@.len() == v@.len(),
        forall|i: int| 0 <= i < r@.len() ==> (#[trigger] r@[i])@ == element_value(v@[i]),
{
    broadcast use crate::json::group_json_views;

    let ghost all = v@.map_values(|e: VectorElement| element_value(e));
    let mut out: Vec<Json> = Vec::new();
    let mut i: usize = 0;
    while i < v.len()
        invariant
            i <= v@.len(),
            all == v@.map_values(|e: VectorElement| element_value(e)),
            crate::json::values(out@) == all.take(i as int),
            out@.len() == i,
            forall|j: int| 0 <= j < i ==> (#[trigger] out@[j])@ == element_value(v@[j]),
        decreases v@.len() - i,
    {
        let item = match &v[i] {
            VectorElement::Finite(n) => Json::Number(JsonNumber::Float(n.clone())),
            VectorElement::NonFinite => Json::Null,
        };
        proof {
            assert(all.take(i + 1) =~= all.take(i as int).push(all[i as int]));
        }
        out.push(item);
        i += 1;
    }
    assert(all.take(i as int) =~= all);
    out
}

/// Resolves the query vector of a call.
pub fn resolve_query_vector(knn: &KnnConfig, args: &Json) -> (r: Result<Vec<Json>, String>)
    requires
        args@.wf(),
    ensures
        crate::json::list_result(r) == query_vector(*knn, args@),
        r matches Ok(v) ==> (knn.wf() ==> forall|i: int|
            0 <= i < v@.len() ==> (#[trigger] v@[i])@.wf()),
{
    broadcast use {crate::json::group_json_views, crate::json::lemma_get_wf};

    match args.get("query_vector") {
        Some(Json::Array(items)) => {
            let ghost all = crate::json::values(items@);
            assert(args@.get("query_vector"@) == Some(JsonView::Array(all)));
            if items.is_empty() {
                return Err("`query_vector` must be a non-empty array of numbers".to_owned());
            }
            proof {
                assert forall|i: int| 0 <= i < items@.len() implies (#[trigger] items@[i])@.wf() by {
                    assert(all[i] == items@[i]@);
                    assert(all[i].wf());
                }
            }
            lower_vector(items)
        },
        Some(_) => Err("`query_vector` must be an array of numbers".to_owned()),
        None => match &knn.query_vector {
            Some(v) if !v.is_empty() => Ok(literal_vector(v)),
            _ => Err(
                "missing required `query_vector` argument (no literal knn.query_vector configured)".to_owned(),
            ),
        },
    }
}

/// The number of candidates: never fewer than the neighbours asked for.
pub open spec fn candidates(knn: KnnConfig) -> Option<JsonView> {
    match knn.num_candidates {
        Some(n) => Some(
            JsonView::number(
                (if n >= knn.k {
                    n
                } else {
                    knn.k
                }) as u64,
            ),
        ),
        None => None,
    }
}

/// The vector search itself.
pub open spec fn knn_clause(knn: KnnConfig, vector: Seq<JsonView>) -> JsonView {
    JsonView::object().with("field"@, JsonView::Text(knn.field@)).with(
        "query_vector"@,
        JsonView::Array(vector),
    ).with("k"@, JsonView::number(knn.k as u64)).with_some(
        "num_candidates"@,
        candidates(knn),
    ).with_some("filter"@, crate::json::opt_value(knn.filter))
}

/// The body of a vector search, or why there is none.
pub open spec fn knn_body(
    spec: ElasticsearchBackendSpec,
    knn: KnnConfig,
    args: JsonView,
) -> Result<JsonView, Seq<char>> {
    match query_vector(knn, args) {
        Err(m) => Err(m),
        Ok(vector) => {
            let refusal = match knn.filter {
                Some(f) => spec.script_refusal(f@),
                None => None,
            };
            match refusal {
                Some(m) => Err(m),
                None => Ok(
                    JsonView::object().with("knn"@, knn_clause(knn, vector)).with_some(
                        "_source"@,
                        args.get("source"@),
                    ),
                ),
            }
        },
    }
}

/// Builds the body of a vector search.
pub fn build_knn_body(spec: &ElasticsearchBackendSpec, knn: &KnnConfig, args: &Json) -> (r: Result<
    Json,
    String,
>)
    requires
        args@.wf(),
    ensures
        crate::json::value_result(r) == knn_body(*spec, *knn, args@),
        r matches Ok(j) ==> (knn.wf() ==> j@.wf()),
{
    broadcast use {crate::json::lemma_with_wf, crate::json::lemma_get_wf};

    let vector = match resolve_query_vector(knn, args) {
        Ok(v) => v,
        Err(m) => {
            return Err(m);
        },
    };
    let num_candidates = match knn.num_candidates {
        Some(n) => Some(
            Json::number(
                (if n >= knn.k {
                    n
                } else {
                    knn.k
                }) as u64,
            ),
        ),
        None => None,
    };
    let filter = match &knn.filter {
        Some(f) => {
            if let Err(m) = check_scripting(spec, f) {
                return Err(m);
            }
            Some(f.clone())
        },
        None => None,
    };
    let clause = Json::object().with("field", Json::text(knn.field.as_str())).with(
        "query_vector",
        Json::array(vector),
    ).with("k", Json::number(knn.k as u64)).with_some("num_candidates", num_candidates).with_some(
        "filter",
        filter,
    );
    Ok(
        Json::object().with("knn", clause).with_some("_source", clone_opt(args.get("source"))),
    )
}

/// The body of a search is a valid value.
pub proof fn lemma_search_wf(spec: ElasticsearchBackendSpec, args: JsonView, include_paging: bool)
    requires
        args.wf(),
    ensures
        search_fields(spec, args, include_paging).wf(),
{
    broadcast use {crate::json::lemma_with_wf, crate::json::lemma_get_wf};

}

/// The keys of a search body differ, and none of them introduces a script.
proof fn lemma_search_keys()
    ensures
        "query"@ != "size"@,
        "query"@ != "from"@,
        "query"@ != "sort"@,
        "query"@ != "_source"@,
        "query"@ != "aggs"@,
        "size"@ != "from"@,
        "size"@ != "sort"@,
        "size"@ != "_source"@,
        "size"@ != "aggs"@,
        "from"@ != "sort"@,
        "from"@ != "_source"@,
        "from"@ != "aggs"@,
        "sort"@ != "_source"@,
        "sort"@ != "aggs"@,
        "_source"@ != "aggs"@,
        !crate::scripting::scripting_key("query"@),
        !crate::scripting::scripting_key("size"@),
        !crate::scripting::scripting_key("from"@),
        !crate::scripting::scripting_key("sort"@),
        !crate::scripting::scripting_key("_source"@),
        !crate::scripting::scripting_key("aggs"@),
{
    reveal_strlit("query");
    reveal_strlit("size");
    reveal_strlit("from");
    reveal_strlit("sort");
    reveal_strlit("_source");
    reveal_strlit("aggs");
    reveal_strlit("script");
    reveal_strlit("script_score");
    reveal_strlit("scripted_metric");
    reveal_strlit("runtime_mappings");
    reveal_strlit("script_fields");
    reveal_strlit("_script");
    assert("query"@[0] == 'q' && "size"@[1] == 'i' && "sort"@[1] == 'o' && "from"@[0] == 'f'
        && "aggs"@[0] == 'a' && "_source"@[1] == 's' && "_source"@[2] == 'o');
    assert("_script"@[1] == 's' && "_script"@[2] == 'c');
    assert("script"@[0] == 's');
    assert("_source"@.subrange(0, 7) =~= "_source"@);
    assert("size"@[0] == 's' && "sort"@[0] == 's');
}

/// A search never asks for a page beyond the ceilings of the configuration: its size
/// and start are those of the arguments, held down to them.
pub proof fn law_search_page_within_ceilings(spec: ElasticsearchBackendSpec, args: JsonView)
    ensures
        search_fields(spec, args, true).get("size"@) == clamped_number(
            args.get_u64("size"@),
            spec.max_size,
        ),
        search_fields(spec, args, true).get("from"@) == clamped_number(
            args.get_u64("from"@),
            spec.max_from,
        ),
        search_fields(spec, args, true).get_u64("size"@) matches Some(n) ==> n <= spec.max_size,
        search_fields(spec, args, true).get_u64("from"@) matches Some(n) ==> n <= spec.max_from,
{
    broadcast use crate::json::lemma_get_with;

    lemma_search_keys();
}

/// The body of a count holds the query and nothing else.
pub proof fn law_count_body_is_query_only(
    spec: ElasticsearchBackendSpec,
    args: JsonView,
    key: Seq<char>,
)
    ensures
        search_fields(spec, args, false).get("query"@) == args.get("query"@),
        key != "query"@ ==> search_fields(spec, args, false).get(key) is None,
{
    broadcast use crate::json::lemma_get_with;

}

/// Setting a field whose key introduces no script keeps an object free of scripts.
pub broadcast proof fn lemma_with_script_free(j: JsonView, key: Seq<char>, value: JsonView)
    requires
        crate::scripting::script_free(j),
        crate::scripting::script_free(value),
        !crate::scripting::scripting_key(key),
    ensures
        crate::scripting::script_free(#[trigger] j.with(key, value)),
{
    if j is Object {
        let fields = j->Object_0;
        let out = crate::json::with_field(fields, key, value);
        crate::json::lemma_with_field_keys(fields, key, value);
        assert forall|i: int| 0 <= i < out.len() implies !crate::scripting::scripting_key(
            (#[trigger] out[i]).0,
        ) && crate::scripting::script_free(out[i].1) by {
            if out[i] != (key, value) {
                let m = choose|m: int| 0 <= m < fields.len() && #[trigger] fields[m] == out[i];
                assert(!crate::scripting::scripting_key(fields[m].0));
            }
        }
    }
}

/// What a value without scripts holds is free of them too.
pub broadcast proof fn lemma_get_script_free(j: JsonView, key: Seq<char>)
    requires
        crate::scripting::script_free(j),
    ensures
        (#[trigger] j.get(key)) matches Some(v) ==> crate::scripting::script_free(v),
{
    if j is Object {
        crate::json::lemma_field_member(j->Object_0, key);
        if let Some(v) = j.get(key) {
            let i = choose|i: int|
                0 <= i < j->Object_0.len() && (#[trigger] j->Object_0[i]) == (key, v);
            assert(crate::scripting::script_free(j->Object_0[i].1));
        }
    }
}

/// Where scripts are not allowed, an accepted search carries none at any depth.
pub proof fn law_accepted_search_is_script_free(
    spec: ElasticsearchBackendSpec,
    args: JsonView,
    include_paging: bool,
)
    requires
        !spec.allow_scripting,
    ensures
        search_body(spec, args, include_paging) matches Ok(body)
            ==> crate::scripting::script_free(body),
{
    broadcast use {lemma_with_script_free, lemma_get_script_free};

    lemma_search_keys();
    crate::scripting::law_search_finds_every_script(args);
}

/// Where scripts are not allowed, the filter of an accepted vector search carries none
/// at any depth.
pub proof fn law_accepted_filter_is_script_free(
    spec: ElasticsearchBackendSpec,
    knn: KnnConfig,
    args: JsonView,
)
    requires
        !spec.allow_scripting,
    ensures
        knn_body(spec, knn, args) is Ok ==> (knn.filter matches Some(f)
            ==> crate::scripting::script_free(f@)),
{
    if let Some(f) = knn.filter {
        crate::scripting::law_search_finds_every_script(f@);
    }
}

/// A vector search looks at no fewer candidates than it returns neighbours.
pub proof fn law_candidates_cover_neighbours(knn: KnnConfig, vector: Seq<JsonView>)
    ensures
        knn_clause(knn, vector).get_u64("k"@) == Some(knn.k as u64),
        knn_clause(knn, vector).get("num_candidates"@) == candidates(knn),
        knn_clause(knn, vector).get_u64("num_candidates"@) matches Some(n) ==> n >= knn.k,
{
    broadcast use crate::json::lemma_get_with;

    reveal_strlit("field");
    reveal_strlit("query_vector");
    reveal_strlit("k");
    reveal_strlit("num_candidates");
    reveal_strlit("filter");
    assert("k"@.len() == 1);
}

/// What an argument of a search comes to once it is held down to its ceiling: nothing
/// where it is no natural number, itself where it is within the ceiling, and else the
/// ceiling.
pub open spec fn held_down(argument: Option<JsonView>, ceiling: u64, sent: Option<JsonView>) -> bool {
    match argument {
        Some(JsonView::Number(JsonNumber::PosInt(n))) => {
            &&& n <= ceiling ==> sent == argument
            &&& n > ceiling ==> sent == Some(JsonView::Number(JsonNumber::PosInt(ceiling)))
        },
        _ => sent is None,
    }
}

/// The body of an accepted search hands on what the caller asked for. The query stands
/// in it as it was given, with a page and without. With a page so do the order, the
/// selection of fields and the aggregations, and the size and the start are held down
/// to their ceilings. Nothing else is in it.
pub proof fn law_search_hands_on_what_was_asked(
    spec: ElasticsearchBackendSpec,
    args: JsonView,
    include_paging: bool,
    key: Seq<char>,
)
    ensures
        search_body(spec, args, include_paging) matches Ok(body) ==> {
            &&& body is Object
            &&& body.get("query"@) == args.get("query"@)
            &&& include_paging ==> {
                &&& body.get("sort"@) == args.get("sort"@)
                &&& body.get("_source"@) == args.get("source"@)
                &&& body.get("aggs"@) == args.get("aggs"@)
                &&& held_down(args.get("size"@), spec.max_size, body.get("size"@))
                &&& held_down(args.get("from"@), spec.max_from, body.get("from"@))
            }
            &&& body.get(key) is Some ==> {
                ||| key == "query"@
                ||| include_paging && (key == "size"@ || key == "from"@ || key == "sort"@ || key
                    == "_source"@ || key == "aggs"@)
            }
        },
{
    broadcast use crate::json::lemma_get_with;

    lemma_search_keys();
}

/// A search is refused exactly where its arguments carry a script that is not allowed.
/// What it is refused with is what the guard says of the arguments.
pub proof fn law_search_is_refused_for_scripts_alone(
    spec: ElasticsearchBackendSpec,
    args: JsonView,
    include_paging: bool,
)
    ensures
        search_body(spec, args, include_paging) is Ok <==> spec.allow_scripting
            || crate::scripting::script_free(args),
        search_body(spec, args, include_paging) matches Err(m) ==> spec.script_refusal(args)
            == Some(m),
{
    crate::scripting::law_search_finds_every_script(args);
}

/// The keys of a vector search differ.
proof fn lemma_knn_keys()
    ensures
        "knn"@ != "_source"@,
        "field"@ != "query_vector"@,
        "field"@ != "k"@,
        "field"@ != "num_candidates"@,
        "field"@ != "filter"@,
        "query_vector"@ != "k"@,
        "query_vector"@ != "num_candidates"@,
        "query_vector"@ != "filter"@,
        "k"@ != "num_candidates"@,
        "k"@ != "filter"@,
        "num_candidates"@ != "filter"@,
{
    reveal_strlit("knn");
    reveal_strlit("_source");
    reveal_strlit("field");
    reveal_strlit("query_vector");
    reveal_strlit("k");
    reveal_strlit("num_candidates");
    reveal_strlit("filter");
    assert("knn"@.len() == 3 && "_source"@.len() == 7 && "field"@.len() == 5);
    assert("query_vector"@.len() == 12 && "k"@.len() == 1 && "num_candidates"@.len() == 14);
    assert("filter"@.len() == 6);
}

/// The body of an accepted vector search selects the fields that the caller asked for,
/// and none where the caller did not. Its clause holds the configured field, number of
/// neighbours and filter, at least as many candidates as neighbours where they are
/// configured, and the vector that was resolved. Nothing else is in either.
pub proof fn law_vector_search_hands_on_what_was_asked(
    spec: ElasticsearchBackendSpec,
    knn: KnnConfig,
    args: JsonView,
    key: Seq<char>,
)
    ensures
        knn_body(spec, knn, args) matches Ok(body) ==> {
            &&& body is Object
            &&& body.get("_source"@) == args.get("source"@)
            &&& body.get(key) is Some ==> key == "knn"@ || key == "_source"@
            &&& body.get("knn"@) matches Some(clause)
            &&& clause.get("field"@) == Some(JsonView::Text(knn.field@))
            &&& clause.get("k"@) == Some(JsonView::Number(JsonNumber::PosInt(knn.k as u64)))
            &&& query_vector(knn, args) matches Ok(vector)
            &&& clause.get("query_vector"@) == Some(JsonView::Array(vector))
            &&& knn.filter is None ==> clause.get("filter"@) is None
            &&& knn.filter matches Some(f) ==> clause.get("filter"@) == Some(f@)
            &&& match knn.num_candidates {
                None => clause.get("num_candidates"@) is None,
                Some(n) => {
                    &&& n >= knn.k ==> clause.get("num_candidates"@) == Some(
                        JsonView::Number(JsonNumber::PosInt(n as u64)),
                    )
                    &&& n < knn.k ==> clause.get("num_candidates"@) == clause.get("k"@)
                },
            }
            &&& clause.get(key) is Some ==> key == "field"@ || key == "query_vector"@ || key
                == "k"@ || key == "num_candidates"@ || key == "filter"@
        },
{
    broadcast use crate::json::lemma_get_with;

    lemma_knn_keys();
}

/// A vector search is accepted exactly where there is a vector and the configured filter
/// carries no script, unless scripts are allowed. The vector is looked at first.
pub proof fn law_vector_search_is_accepted_with_vector_and_filter(
    spec: ElasticsearchBackendSpec,
    knn: KnnConfig,
    args: JsonView,
)
    ensures
        knn_body(spec, knn, args) is Ok <==> query_vector(knn, args) is Ok && (
        spec.allow_scripting || (knn.filter matches Some(f) ==> crate::scripting::script_free(
            f@,
        ))),
        query_vector(knn, args) matches Err(m) ==> knn_body(spec, knn, args) == Err::<
            JsonView,
            Seq<char>,
        >(m),
        query_vector(knn, args) is Ok ==> (knn_body(spec, knn, args) matches Err(m) ==> (
        knn.filter matches Some(f) && spec.script_refusal(f@) == Some(m))),
{
    if let Some(f) = knn.filter {
        crate::scripting::law_search_finds_every_script(f@);
    }
}

/// The vector of a call goes before the configured one. A call has one where it carries
/// an array of numbers, at least one, and it is these numbers at their places, in
/// floating point form. A call without the argument has the configured vector, element
/// by element, if there is one that is not empty.
pub proof fn law_vector_of_the_call_goes_first(knn: KnnConfig, args: JsonView)
    ensures
        args.get("query_vector"@) matches Some(given) ==> {
            &&& query_vector(knn, args) is Ok <==> (given matches JsonView::Array(items)
                && items.len() > 0 && forall|i: int|
                0 <= i < items.len() ==> (#[trigger] items[i]) is Number)
            &&& query_vector(knn, args) matches Ok(vector) ==> {
                let items = given->Array_0;
                &&& vector.len() == items.len()
                &&& forall|i: int|
                    0 <= i < items.len() ==> (#[trigger] vector[i]) == JsonView::Number(
                        JsonNumber::Float(crate::wire::float_of(items[i]->Number_0)),
                    )
            }
        },
        args.get("query_vector"@) is None ==> {
            &&& query_vector(knn, args) is Ok <==> (knn.query_vector matches Some(v) && v@.len()
                > 0)
            &&& query_vector(knn, args) matches Ok(vector) ==> {
                let literal = knn.query_vector->0@;
                &&& vector.len() == literal.len()
                &&& forall|i: int|
                    0 <= i < literal.len() ==> ((#[trigger] vector[i]) == match literal[i] {
                        VectorElement::Finite(n) => JsonView::Number(JsonNumber::Float(n)),
                        VectorElement::NonFinite => JsonView::Null,
                    })
            }
        },
{
    if let Some(JsonView::Array(items)) = args.get("query_vector"@) {
        let bad = |i: int| !(items[i] is Number);
        crate::text::lemma_first_from(0, items.len() as int, bad);
        if let Some(i) = crate::text::first_from(0, items.len() as int, bad) {
            assert(!(items[i] is Number));
        } else {
            assert forall|i: int| 0 <= i < items.len() implies (#[trigger] items[i]) is Number by {
                assert(!bad(i));
            }
        }
    }
}

/// What a call without a usable vector is told: that the argument is no array, that it is
/// empty, at which place the first element stands that is no number, or that it is
/// missing.
pub proof fn law_missing_vector_is_explained(knn: KnnConfig, args: JsonView, i: int)
    ensures
        args.get("query_vector"@) matches Some(given) ==> {
            &&& !(given is Array) ==> query_vector(knn, args) == Err::<Seq<JsonView>, Seq<char>>(
                "`query_vector` must be an array of numbers"@,
            )
            &&& given == JsonView::Array(Seq::empty()) ==> query_vector(knn, args) == Err::<
                Seq<JsonView>,
                Seq<char>,
            >("`query_vector` must be a non-empty array of numbers"@)
            &&& given matches JsonView::Array(items) ==> (0 <= i < items.len() && !(
            items[i] is Number) && (forall|j: int| 0 <= j < i ==> (#[trigger] items[j]) is Number)
                ==> query_vector(knn, args) == Err::<Seq<JsonView>, Seq<char>>(
                "`query_vector["@ + crate::text::decimal(i as nat) + "]` must be a finite number"@,
            ))
        },
        args.get("query_vector"@) is None && (knn.query_vector matches Some(v) ==> v@.len() == 0)
            ==> query_vector(knn, args) == Err::<Seq<JsonView>, Seq<char>>(
            "missing required `query_vector` argument (no literal knn.query_vector configured)"@,
        ),
{
    if let Some(JsonView::Array(items)) = args.get("query_vector"@) {
        let bad = |i: int| !(items[i] is Number);
        crate::text::lemma_first_from(0, items.len() as int, bad);
        if 0 <= i < items.len() && bad(i) && (forall|j: int|
            0 <= j < i ==> (#[trigger] items[j]) is Number) {
            let found = crate::text::first_from(0, items.len() as int, bad);
            assert(found is Some);
            assert(!(found->0 < i));
            assert(found == Some(i));
        }
    }
}

} // verus!
