//! JSON on the wire: `serde_json` reads and writes the bytes.

use vstd::pervasive::unreached;
use vstd::prelude::*;

use crate::json::{
    ascending, fields_of, group_json_views, number_kind, values, Fields, Json, JsonNumber, JsonView,
    NumberKind,
};

verus! {

/// A value of `serde_json`.
#[verifier::external_type_specification]
#[verifier::external_body]
pub struct ExValue(serde_json::Value);

/// Name for what a `serde_json::Value` holds.
pub uninterp spec fn value_model(v: serde_json::Value) -> JsonView;

/// Name for the compact JSON text that `serde_json` writes for a value.
pub uninterp spec fn json_text(v: JsonView) -> Seq<char>;

/// Name for what `serde_json` reads from bytes: a value, or why there is none.
pub uninterp spec fn json_decode(bytes: Seq<u8>) -> Result<JsonView, Seq<char>>;

/// Name for a number as `serde_json` holds it once it went through its floating point form.
pub uninterp spec fn float_of(n: JsonNumber) -> serde_json::Number;

/// A number of `serde_json` in the terms of this library.
pub open spec fn number_view(n: serde_json::Number) -> JsonNumber {
    match number_kind(n) {
        NumberKind::PosInt(k) => JsonNumber::PosInt(k),
        NumberKind::NegInt(k) => JsonNumber::NegInt(k),
        NumberKind::Float => JsonNumber::Float(n),
    }
}

/// The outermost layer of a `serde_json::Value`.
pub enum Node {
    Null,
    Bool(bool),
    Number(serde_json::Number),
    Text(String),
    Array(Vec<serde_json::Value>),
    Object(Vec<(String, serde_json::Value)>),
}

/// What the values of a list hold.
pub open spec fn models(items: Seq<serde_json::Value>) -> Seq<JsonView> {
    items.map_values(|v: serde_json::Value| value_model(v))
}

/// What the fields of an object hold.
pub open spec fn field_models(fields: Seq<(String, serde_json::Value)>) -> Fields {
    fields.map_values(|e: (String, serde_json::Value)| (e.0@, value_model(e.1)))
}

proof fn lemma_models_push(items: Seq<serde_json::Value>, v: serde_json::Value)
    ensures
        models(items.push(v)) == models(items).push(value_model(v)),
{
    assert(models(items.push(v)) =~= models(items).push(value_model(v)));
}

proof fn lemma_field_models_push(
    fields: Seq<(String, serde_json::Value)>,
    e: (String, serde_json::Value),
)
    ensures
        field_models(fields.push(e)) == field_models(fields).push((e.0@, value_model(e.1))),
{
    assert(field_models(fields.push(e)) =~= field_models(fields).push((e.0@, value_model(e.1))));
}

/// What a layer and the values below it hold.
pub open spec fn node_view(n: Node) -> JsonView {
    match n {
        Node::Null => JsonView::Null,
        Node::Bool(b) => JsonView::Bool(b),
        Node::Number(k) => JsonView::Number(number_view(k)),
        Node::Text(s) => JsonView::Text(s@),
        Node::Array(items) => JsonView::Array(models(items@)),
        Node::Object(fields) => JsonView::Object(field_models(fields@)),
    }
}

/// Takes the outermost layer off a value.
///
/// Trusted: the variants of `serde_json::Value`, told apart. A `serde_json::Map` is a
/// B-tree, unless the feature `preserve_order` is on, and so hands out its fields in
/// ascending order of their keys, by bytes, each key once.
#[verifier::external_body]
fn open_value(v: serde_json::Value) -> (r: Node)
    ensures
        node_view(r) == value_model(v),
        r is Object ==> ascending(node_view(r)->Object_0),
{
    match v {
        serde_json::Value::Null => Node::Null,
        serde_json::Value::Bool(b) => Node::Bool(b),
        serde_json::Value::Number(n) => Node::Number(n),
        serde_json::Value::String(s) => Node::Text(s),
        serde_json::Value::Array(items) => Node::Array(items),
        serde_json::Value::Object(fields) => Node::Object(fields.into_iter().collect()),
    }
}

/// Puts the outermost layer round the values below it.
///
/// Trusted: the variants of `serde_json::Value`, built. A `serde_json::Map` made of
/// fields in ascending order of their keys holds just these fields.
#[verifier::external_body]
fn close_value(n: Node) -> (r: serde_json::Value)
    requires
        n is Object ==> ascending(node_view(n)->Object_0),
    ensures
        value_model(r) == node_view(n),
{
    match n {
        Node::Null => serde_json::Value::Null,
        Node::Bool(b) => serde_json::Value::Bool(b),
        Node::Number(k) => serde_json::Value::Number(k),
        Node::Text(s) => serde_json::Value::String(s),
        Node::Array(items) => serde_json::Value::Array(items),
        Node::Object(fields) => serde_json::Value::Object(fields.into_iter().collect()),
    }
}

/// The value of a natural number.
///
/// Trusted: `serde_json::Number::as_u64` gives the integer from zero up that the
/// number holds, and nothing for another number.
#[verifier::external_body]
fn number_as_u64(n: &serde_json::Number) -> (r: Option<u64>)
    ensures
        r == (match number_kind(*n) {
            NumberKind::PosInt(k) => Some(k),
            _ => None,
        }),
{
    n.as_u64()
}

/// The value of an integer.
///
/// Trusted: `serde_json::Number::as_i64` gives the integer that the number holds if
/// it fits, and nothing for another number; the integers that are not held as
/// natural numbers are below zero.
#[verifier::external_body]
fn number_as_i64(n: &serde_json::Number) -> (r: Option<i64>)
    ensures
        match number_kind(*n) {
            NumberKind::PosInt(k) => r == (if k <= i64::MAX {
                Some(k as i64)
            } else {
                None
            }),
            NumberKind::NegInt(k) => r == Some(k) && k < 0,
            NumberKind::Float => r is None,
        },
{
    n.as_i64()
}

/// Trusted: `serde_json::Number::from` of a `u64` holds that natural number.
#[verifier::external_body]
fn number_from_u64(k: u64) -> (r: serde_json::Number)
    ensures
        number_kind(r) == NumberKind::PosInt(k),
{
    serde_json::Number::from(k)
}

/// Trusted: `serde_json::Number::from` of an `i64` below zero holds that integer.
#[verifier::external_body]
fn number_from_i64(k: i64) -> (r: serde_json::Number)
    requires
        k < 0,
    ensures
        number_kind(r) == NumberKind::NegInt(k),
{
    serde_json::Number::from(k)
}

/// A number by way of its floating point form.
///
/// Trusted: `serde_json::Number::as_f64` succeeds for every number and gives a
/// finite one, of which `serde_json::Number::from_f64` makes a number that is no
/// integer to `serde_json`; a number that already was none comes back as it was.
#[verifier::external_body]
fn number_as_float(n: &serde_json::Number) -> (r: Option<serde_json::Number>)
    ensures
        r == Some(float_of(number_view(*n))),
        r matches Some(f) ==> number_kind(f) is Float,
        number_kind(*n) is Float ==> r == Some(*n),
{
    n.as_f64().and_then(serde_json::Number::from_f64)
}

/// Writes a value.
///
/// Trusted: `serde_json::to_string` succeeds for every `serde_json::Value`, since a
/// value has string keys and finite numbers only. The text is compact and has no
/// line feed: a control character in a string is escaped.
#[verifier::external_body]
fn value_text(v: &serde_json::Value) -> (r: Result<String, String>)
    ensures
        r is Ok,
        r matches Ok(t) ==> t@ == json_text(value_model(*v)) && !t@.contains('\n'),
{
    serde_json::to_string(v).map_err(|e| e.to_string())
}

/// Reads a value.
///
/// Trusted: `serde_json::from_slice` gives the value that the bytes denote, or an
/// error; the value, or the message of the error, is settled by the bytes alone.
#[verifier::external_body]
fn read_value(bytes: &[u8]) -> (r: Result<serde_json::Value, String>)
    ensures
        match r {
            Ok(v) => json_decode(bytes@) == Ok::<JsonView, Seq<char>>(value_model(v)),
            Err(m) => json_decode(bytes@) == Err::<JsonView, Seq<char>>(m@),
        },
{
    serde_json::from_slice(bytes).map_err(|e| e.to_string())
}

/// A number of `serde_json` as a plain one.
fn number_of(n: serde_json::Number) -> (r: JsonNumber)
    ensures
        r == number_view(n),
        r.wf(),
{
    match number_as_u64(&n) {
        Some(k) => JsonNumber::PosInt(k),
        None => match number_as_i64(&n) {
            Some(k) => JsonNumber::NegInt(k),
            None => JsonNumber::Float(n),
        },
    }
}

/// A plain number as one of `serde_json`.
fn to_number(n: &JsonNumber) -> (r: serde_json::Number)
    requires
        n.wf(),
    ensures
        number_view(r) == *n,
{
    match n {
        JsonNumber::PosInt(k) => number_from_u64(*k),
        JsonNumber::NegInt(k) => number_from_i64(*k),
        JsonNumber::Float(f) => f.clone(),
    }
}

/// The number in floating point form: what a vector element is written as.
pub open spec fn float_number(n: JsonNumber) -> JsonNumber {
    JsonNumber::Float(float_of(n))
}

/// A number by way of its floating point form. One that is no integer stays as it is.
pub fn as_float(n: &JsonNumber) -> (r: JsonNumber)
    requires
        n.wf(),
    ensures
        r == float_number(*n),
        r.wf(),
        n is Float ==> r == *n,
{
    match number_as_float(&to_number(n)) {
        Some(f) => JsonNumber::Float(f),
        None => unreached(),
    }
}

/// A value of `serde_json` as one of this library.
pub fn from_value(v: serde_json::Value) -> (r: Json)
    ensures
        r@ == value_model(v),
        r@.wf(),
    decreases value_model(v),
{
    broadcast use group_json_views;

    let ghost model = value_model(v);
    match open_value(v) {
        Node::Null => Json::Null,
        Node::Bool(b) => Json::Bool(b),
        Node::Number(n) => Json::Number(number_of(n)),
        Node::Text(s) => Json::Text(s),
        Node::Array(items) => {
            let ghost all = models(items@);
            let mut out: Vec<Json> = Vec::new();
            for item in it: items
                invariant
                    model == value_model(v),
                    model == JsonView::Array(all),
                    all == models(it.seq()),
                    values(out@) == all.take(it.index() as int),
                    forall|i: int| 0 <= i < out@.len() ==> (#[trigger] out@[i])@.wf(),
            {
                let ghost k = it.index() as int;
                assert(value_model(item) == all[k]);
                assert(decreases_to!(model => model->Array_0[k]));
                let j = from_value(item);
                proof {
                    assert(all.take(k + 1) =~= all.take(k).push(all[k]));
                }
                out.push(j);
            }
            proof {
                assert(values(out@) =~= all);
                assert forall|i: int| 0 <= i < all.len() implies (#[trigger] all[i]).wf() by {
                    assert(out@[i]@ == values(out@)[i]);
                }
            }
            Json::Array(out)
        },
        Node::Object(fields) => {
            let ghost all = field_models(fields@);
            let mut out: Vec<(String, Json)> = Vec::new();
            for entry in it: fields
                invariant
                    model == value_model(v),
                    model == JsonView::Object(all),
                    all == field_models(it.seq()),
                    fields_of(out@) == all.take(it.index() as int),
                    forall|i: int| 0 <= i < out@.len() ==> (#[trigger] out@[i]).1@.wf(),
            {
                let ghost k = it.index() as int;
                assert((entry.0@, value_model(entry.1)) == all[k]);
                assert(decreases_to!(model => model->Object_0[k].1));
                let (key, value) = entry;
                let j = from_value(value);
                proof {
                    assert(all.take(k + 1) =~= all.take(k).push(all[k]));
                }
                out.push((key, j));
            }
            proof {
                assert(fields_of(out@) =~= all);
                assert forall|i: int| 0 <= i < all.len() implies (#[trigger] all[i]).1.wf() by {
                    assert(out@[i].1@ == fields_of(out@)[i].1);
                }
            }
            Json::Object(out)
        },
    }
}

/// A value of this library as one of `serde_json`.
pub fn to_value(j: &Json) -> (r: serde_json::Value)
    requires
        j@.wf(),
    ensures
        value_model(r) == j@,
    decreases j,
{
    broadcast use group_json_views;

    match j {
        Json::Null => close_value(Node::Null),
        Json::Bool(b) => close_value(Node::Bool(*b)),
        Json::Number(n) => close_value(Node::Number(to_number(n))),
        Json::Text(s) => close_value(Node::Text(s.clone())),
        Json::Array(items) => {
            let mut out: Vec<serde_json::Value> = Vec::new();
            let mut i: usize = 0;
            while i < items.len()
                invariant
                    i <= items@.len(),
                    *j is Array,
                    items == j->Array_0,
                    j@ == JsonView::Array(values(items@)),
                    j@.wf(),
                    models(out@) == values(items@).take(i as int),
                decreases items@.len() - i,
            {
                assert(decreases_to!(j => items@[i as int]));
                assert(j@->Array_0[i as int].wf());
                assert(values(items@)[i as int] == items@[i as int]@);
                let v = to_value(&items[i]);
                proof {
                    lemma_models_push(out@, v);
                    assert(values(items@).take(i + 1) =~= values(items@).take(i as int).push(
                        items@[i as int]@,
                    ));
                }
                out.push(v);
                i += 1;
            }
            assert(values(items@).take(i as int) =~= values(items@));
            close_value(Node::Array(out))
        },
        Json::Object(fields) => {
            let mut out: Vec<(String, serde_json::Value)> = Vec::new();
            let mut i: usize = 0;
            while i < fields.len()
                invariant
                    i <= fields@.len(),
                    *j is Object,
                    fields == j->Object_0,
                    j@ == JsonView::Object(fields_of(fields@)),
                    j@.wf(),
                    field_models(out@) == fields_of(fields@).take(i as int),
                decreases fields@.len() - i,
            {
                assert(decreases_to!(j => fields@[i as int].1));
                assert(j@->Object_0[i as int].1.wf());
                assert(fields_of(fields@)[i as int].1 == fields@[i as int].1@);
                let entry = (fields[i].0.clone(), to_value(&fields[i].1));
                proof {
                    lemma_field_models_push(out@, entry);
                    assert(fields_of(fields@).take(i + 1) =~= fields_of(fields@).take(
                        i as int,
                    ).push(fields_of(fields@)[i as int]));
                }
                out.push(entry);
                i += 1;
            }
            assert(fields_of(fields@).take(i as int) =~= fields_of(fields@));
            close_value(Node::Object(out))
        },
    }
}

impl Json {
    /// Reads one JSON value from bytes. The error is the reader's message.
    pub fn decode(bytes: &[u8]) -> (r: Result<Json, String>)
        ensures
            match r {
                Ok(j) => json_decode(bytes@) == Ok::<JsonView, Seq<char>>(j@) && j@.wf(),
                Err(m) => json_decode(bytes@) == Err::<JsonView, Seq<char>>(m@),
            },
    {
        match read_value(bytes) {
            Ok(v) => Ok(from_value(v)),
            Err(m) => Err(m),
        }
    }

    /// Writes the value as compact JSON text, on one line.
    pub fn encode(&self) -> (r: String)
        requires
            self@.wf(),
        ensures
            r@ == json_text(self@),
            !r@.contains('\n'),
    {
        match value_text(&to_value(self)) {
            Ok(t) => t,
            Err(_) => unreached(),
        }
    }
}

} // verus!
