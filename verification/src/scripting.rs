//! The guard against scripts in query bodies.
//!
//! A script runs on the server, so a body that carries one is refused unless the
//! configuration allows it. The guard goes by the keys of the body, at any depth.

use vstd::prelude::*;
use vstd::string::StringExecFns;

use crate::config::ElasticsearchBackendSpec;
use crate::json::{Json, JsonView};
use crate::text::{has_suffix, same_text};

verus! {

/// Whether a key introduces a script.
pub open spec fn scripting_key(key: Seq<char>) -> bool {
    ||| key == "script"@
    ||| key == "script_score"@
    ||| key == "scripted_metric"@
    ||| key == "runtime_mappings"@
    ||| key == "script_fields"@
    ||| crate::text::ends_with(key, "_script"@)
}

/// The first key in a value that introduces a script, in the order of the text.
pub open spec fn script_in(v: JsonView) -> Option<Seq<char>>
    decreases v,
{
    match v {
        JsonView::Object(fields) => script_in_fields(fields),
        JsonView::Array(items) => script_in_items(items),
        _ => None,
    }
}

/// The first key in some fields, or in what they hold, that introduces a script.
pub open spec fn script_in_fields(fields: Seq<(Seq<char>, JsonView)>) -> Option<Seq<char>>
    decreases fields,
{
    if fields.len() == 0 {
        None
    } else if scripting_key(fields[0].0) {
        Some(fields[0].0)
    } else {
        match script_in(fields[0].1) {
            Some(key) => Some(key),
            None => script_in_fields(fields.subrange(1, fields.len() as int)),
        }
    }
}

/// The first key in some values that introduces a script.
pub open spec fn script_in_items(items: Seq<JsonView>) -> Option<Seq<char>>
    decreases items,
{
    if items.len() == 0 {
        None
    } else {
        match script_in(items[0]) {
            Some(key) => Some(key),
            None => script_in_items(items.subrange(1, items.len() as int)),
        }
    }
}

/// Whether no key at any depth introduces a script.
pub open spec fn script_free(v: JsonView) -> bool
    decreases v,
{
    match v {
        JsonView::Object(fields) => forall|i: int|
            0 <= i < fields.len() ==> !scripting_key((#[trigger] fields[i]).0) && script_free(
                fields[i].1,
            ),
        JsonView::Array(items) => forall|i: int|
            0 <= i < items.len() ==> script_free(#[trigger] items[i]),
        _ => true,
    }
}

/// A value has no first scripting key exactly when it has none at any depth.
pub proof fn law_search_finds_every_script(v: JsonView)
    ensures
        script_in(v) is None <==> script_free(v),
        script_in(v) matches Some(key) ==> scripting_key(key),
    decreases v,
{
    match v {
        JsonView::Object(fields) => {
            lemma_fields(fields);
        },
        JsonView::Array(items) => {
            lemma_items(items);
        },
        _ => {},
    }
}

proof fn lemma_fields(fields: Seq<(Seq<char>, JsonView)>)
    ensures
        script_in_fields(fields) is None <==> forall|i: int|
            0 <= i < fields.len() ==> !scripting_key((#[trigger] fields[i]).0) && script_free(
                fields[i].1,
            ),
        script_in_fields(fields) matches Some(key) ==> scripting_key(key),
    decreases fields,
{
    if fields.len() > 0 {
        let rest = fields.subrange(1, fields.len() as int);
        law_search_finds_every_script(fields[0].1);
        lemma_fields(rest);
        let free = forall|i: int|
            0 <= i < fields.len() ==> !scripting_key((#[trigger] fields[i]).0) && script_free(
                fields[i].1,
            );
        if free {
            assert forall|i: int| 0 <= i < rest.len() implies !scripting_key(
                (#[trigger] rest[i]).0,
            ) && script_free(rest[i].1) by {
                assert(rest[i] == fields[i + 1]);
            }
            assert(!scripting_key(fields[0].0));
        }
        if script_in_fields(fields) is None {
            assert forall|i: int| 0 <= i < fields.len() implies !scripting_key(
                (#[trigger] fields[i]).0,
            ) && script_free(fields[i].1) by {
                if i > 0 {
                    assert(rest[i - 1] == fields[i]);
                }
            }
        }
    }
}

proof fn lemma_items(items: Seq<JsonView>)
    ensures
        script_in_items(items) is None <==> forall|i: int|
            0 <= i < items.len() ==> script_free(#[trigger] items[i]),
        script_in_items(items) matches Some(key) ==> scripting_key(key),
    decreases items,
{
    if items.len() > 0 {
        let rest = items.subrange(1, items.len() as int);
        law_search_finds_every_script(items[0]);
        lemma_items(rest);
        if forall|i: int| 0 <= i < items.len() ==> script_free(#[trigger] items[i]) {
            assert forall|i: int| 0 <= i < rest.len() implies script_free(#[trigger] rest[i]) by {
                assert(rest[i] == items[i + 1]);
            }
            assert(script_free(items[0]));
        }
        if script_in_items(items) is None {
            assert forall|i: int| 0 <= i < items.len() implies script_free(#[trigger] items[i]) by {
                if i > 0 {
                    assert(rest[i - 1] == items[i]);
                }
            }
        }
    }
}

/// Whether a key introduces a script.
pub fn is_scripting_key(key: &str) -> (r: bool)
    ensures
        r == scripting_key(key@),
{
    same_text(key, "script") || same_text(key, "script_score") || same_text(key, "scripted_metric")
        || same_text(key, "runtime_mappings") || same_text(key, "script_fields") || has_suffix(
        key,
        "_script",
    )
}

/// The first key in a value, at any depth, that introduces a script.
pub fn find_scripting_key(v: &Json) -> (r: Option<String>)
    ensures
        crate::text::opt_string(r) == script_in(v@),
    decreases v,
{
    broadcast use crate::json::group_json_views;

    match v {
        Json::Object(fields) => {
            let ghost all = crate::json::fields_of(fields@);
            let mut i: usize = 0;
            proof {
                assert(all.skip(0) =~= all);
            }
            while i < fields.len()
                invariant
                    i <= fields@.len(),
                    *v is Object,
                    fields == v->Object_0,
                    all == crate::json::fields_of(fields@),
                    v@ == JsonView::Object(all),
                    script_in_fields(all) == script_in_fields(all.skip(i as int)),
                decreases fields@.len() - i,
            {
                assert(decreases_to!(v => fields@[i as int].1));
                let ghost here = all.skip(i as int);
                proof {
                    assert(here[0] == all[i as int]);
                    assert(here.subrange(1, here.len() as int) =~= all.skip(i + 1));
                }
                if is_scripting_key(fields[i].0.as_str()) {
                    return Some(fields[i].0.clone());
                }
                if let Some(hit) = find_scripting_key(&fields[i].1) {
                    return Some(hit);
                }
                i += 1;
            }
            None
        },
        Json::Array(items) => {
            let ghost all = crate::json::values(items@);
            let mut i: usize = 0;
            proof {
                assert(all.skip(0) =~= all);
            }
            while i < items.len()
                invariant
                    i <= items@.len(),
                    *v is Array,
                    items == v->Array_0,
                    all == crate::json::values(items@),
                    v@ == JsonView::Array(all),
                    script_in_items(all) == script_in_items(all.skip(i as int)),
                decreases items@.len() - i,
            {
                assert(decreases_to!(v => items@[i as int]));
                let ghost here = all.skip(i as int);
                proof {
                    assert(here[0] == all[i as int]);
                    assert(here.subrange(1, here.len() as int) =~= all.skip(i + 1));
                }
                if let Some(hit) = find_scripting_key(&items[i]) {
                    return Some(hit);
                }
                i += 1;
            }
            None
        },
        _ => None,
    }
}

impl ElasticsearchBackendSpec {
    /// Why a body is refused: it carries a script and scripts are not allowed.
    pub open spec fn script_refusal(self, body: JsonView) -> Option<Seq<char>> {
        if self.allow_scripting {
            None
        } else {
            match script_in(body) {
                Some(key) => Some(
                    "query body contains `"@ + key
                        + "` (scripting disabled; set allow_scripting to enable)"@,
                ),
                None => None,
            }
        }
    }
}

/// Refuses a body that carries a script, unless scripts are allowed.
pub fn check_scripting(spec: &ElasticsearchBackendSpec, body: &Json) -> (r: Result<(), String>)
    ensures
        crate::text::refusal(r) == spec.script_refusal(body@),
{
    if spec.allow_scripting {
        return Ok(());
    }
    if let Some(key) = find_scripting_key(body) {
        return Err(
            "query body contains `".to_owned().concat(key.as_str()).concat(
                "` (scripting disabled; set allow_scripting to enable)",
            ),
        );
    }
    Ok(())
}

/// The keys that introduce a script: five by their names, and every key that ends in
/// `_script`.
pub proof fn law_keys_that_introduce_a_script(key: Seq<char>, before: Seq<char>)
    ensures
        scripting_key("script"@),
        scripting_key("script_score"@),
        scripting_key("scripted_metric"@),
        scripting_key("runtime_mappings"@),
        scripting_key("script_fields"@),
        scripting_key(before + "_script"@),
        scripting_key(key) ==> {
            ||| key == "script"@
            ||| key == "script_score"@
            ||| key == "scripted_metric"@
            ||| key == "runtime_mappings"@
            ||| key == "script_fields"@
            ||| exists|head: Seq<char>| key == #[trigger] (head + "_script"@)
        },
{
    let whole = before + "_script"@;
    assert(whole.subrange(whole.len() - "_script"@.len(), whole.len() as int) =~= "_script"@);
    if crate::text::ends_with(key, "_script"@) {
        let head = key.take(key.len() - "_script"@.len());
        assert(key =~= head + "_script"@);
    }
}

/// The key that is found first: of an object, fields before which and in which there is
/// none are passed over; a key itself comes before what it holds. Of a list, items in
/// which there is none are passed over.
pub proof fn law_first_script_is_found(
    free: Seq<(Seq<char>, JsonView)>,
    key: Seq<char>,
    value: JsonView,
    rest: Seq<(Seq<char>, JsonView)>,
    items: Seq<JsonView>,
    more: Seq<JsonView>,
)
    requires
        forall|i: int|
            0 <= i < free.len() ==> !scripting_key((#[trigger] free[i]).0) && script_free(
                free[i].1,
            ),
        forall|i: int| 0 <= i < items.len() ==> script_free(#[trigger] items[i]),
    ensures
        scripting_key(key) ==> script_in(JsonView::Object(free + seq![(key, value)] + rest))
            == Some(key),
        !scripting_key(key) && !script_free(value) ==> script_in(
            JsonView::Object(free + seq![(key, value)] + rest),
        ) == script_in(value),
        !script_free(value) ==> script_in(JsonView::Array(items + seq![value] + more))
            == script_in(value),
{
    law_search_finds_every_script(value);
    lemma_pass_fields(free, seq![(key, value)] + rest);
    assert(free + (seq![(key, value)] + rest) =~= free + seq![(key, value)] + rest);
    lemma_pass_items(items, seq![value] + more);
    assert(items + (seq![value] + more) =~= items + seq![value] + more);
}

proof fn lemma_pass_fields(free: Seq<(Seq<char>, JsonView)>, rest: Seq<(Seq<char>, JsonView)>)
    requires
        forall|i: int|
            0 <= i < free.len() ==> !scripting_key((#[trigger] free[i]).0) && script_free(
                free[i].1,
            ),
    ensures
        script_in_fields(free + rest) == script_in_fields(rest),
    decreases free.len(),
{
    if free.len() == 0 {
        assert(free + rest =~= rest);
    } else {
        let all = free + rest;
        let tail = free.drop_first();
        law_search_finds_every_script(free[0].1);
        assert(all[0] == free[0]);
        assert forall|i: int| 0 <= i < tail.len() implies !scripting_key((#[trigger] tail[i]).0)
            && script_free(tail[i].1) by {
            assert(tail[i] == free[i + 1]);
        }
        lemma_pass_fields(tail, rest);
        assert(all.subrange(1, all.len() as int) =~= tail + rest);
    }
}

proof fn lemma_pass_items(free: Seq<JsonView>, rest: Seq<JsonView>)
    requires
        forall|i: int| 0 <= i < free.len() ==> script_free(#[trigger] free[i]),
    ensures
        script_in_items(free + rest) == script_in_items(rest),
    decreases free.len(),
{
    if free.len() == 0 {
        assert(free + rest =~= rest);
    } else {
        let all = free + rest;
        let tail = free.drop_first();
        law_search_finds_every_script(free[0]);
        assert(all[0] == free[0]);
        assert forall|i: int| 0 <= i < tail.len() implies script_free(#[trigger] tail[i]) by {
            assert(tail[i] == free[i + 1]);
        }
        lemma_pass_items(tail, rest);
        assert(all.subrange(1, all.len() as int) =~= tail + rest);
    }
}

/// A value is free of scripts exactly where no key in it introduces one and everything
/// it holds is free of them.
pub proof fn law_scripts_count_at_any_depth(v: JsonView)
    ensures
        script_free(v) <==> match v {
            JsonView::Object(fields) => forall|i: int|
                0 <= i < fields.len() ==> !scripting_key((#[trigger] fields[i]).0) && script_free(
                    fields[i].1,
                ),
            JsonView::Array(items) => forall|i: int|
                0 <= i < items.len() ==> script_free(#[trigger] items[i]),
            _ => true,
        },
{
}

/// A body is refused exactly where it carries a script at any depth and scripts are not
/// allowed, and the message names the key that introduces it.
pub proof fn law_scripts_are_refused_unless_allowed(spec: ElasticsearchBackendSpec, body: JsonView)
    ensures
        spec.script_refusal(body) is Some <==> !spec.allow_scripting && !script_free(body),
        spec.script_refusal(body) matches Some(m) ==> {
            &&& script_in(body) matches Some(key)
            &&& m == "query body contains `"@ + key
                + "` (scripting disabled; set allow_scripting to enable)"@
        },
{
    law_search_finds_every_script(body);
}

} // verus!
