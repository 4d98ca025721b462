//! JSON values as the binding reads and builds them.
//!
//! An object is the list of its fields in ascending order of their keys, each
//! key once. Integers are plain; any other number is carried as the value that
//! `serde_json` holds for it.

use vstd::prelude::*;
use vstd::utf8::*;

use crate::text::same_text;

verus! {

/// A number of `serde_json`, carried but not looked into.
#[verifier::external_type_specification]
#[verifier::external_body]
pub struct ExNumber(serde_json::Number);

/// Trusted: `serde_json::Number` derives `Clone` over plain copyable data, so the
/// clone is the number itself.
pub assume_specification[ <serde_json::Number as Clone>::clone ](
    n: &serde_json::Number,
) -> (r: serde_json::Number)
    ensures
        r == *n,
;

/// A JSON number.
#[derive(Debug, PartialEq, Eq)]
pub enum JsonNumber {
    /// An integer from zero up.
    PosInt(u64),
    /// An integer below zero.
    NegInt(i64),
    /// Any other number.
    Float(serde_json::Number),
}

/// A JSON value.
#[derive(Debug, PartialEq, Eq)]
pub enum Json {
    Null,
    Bool(bool),
    Number(JsonNumber),
    Text(String),
    Array(Vec<Json>),
    Object(Vec<(String, Json)>),
}

/// The fields of an object: key and value, in order.
pub type Fields = Seq<(Seq<char>, JsonView)>;

/// What a JSON value is.
pub enum JsonView {
    Null,
    Bool(bool),
    Number(JsonNumber),
    Text(Seq<char>),
    Array(Seq<JsonView>),
    Object(Fields),
}

impl Json {
    /// The value without its representation.
    pub open spec fn model(self) -> JsonView
        decreases self,
    {
        match self {
            Json::Null => JsonView::Null,
            Json::Bool(b) => JsonView::Bool(b),
            Json::Number(n) => JsonView::Number(n),
            Json::Text(s) => JsonView::Text(s@),
            Json::Array(items) => JsonView::Array(
                Seq::new(
                    items@.len(),
                    |i: int|
                        if 0 <= i < items@.len() {
                            items@[i].model()
                        } else {
                            JsonView::Null
                        },
                ),
            ),
            Json::Object(fields) => JsonView::Object(
                Seq::new(
                    fields@.len(),
                    |i: int|
                        if 0 <= i < fields@.len() {
                            (fields@[i].0@, fields@[i].1.model())
                        } else {
                            (Seq::empty(), JsonView::Null)
                        },
                ),
            ),
        }
    }
}

impl View for Json {
    type V = JsonView;

    open spec fn view(&self) -> JsonView {
        self.model()
    }
}

/// The values of a list.
pub open spec fn values(items: Seq<Json>) -> Seq<JsonView> {
    items.map_values(|j: Json| j@)
}

/// The fields of a list of keys and values.
pub open spec fn fields_of(fields: Seq<(String, Json)>) -> Fields {
    fields.map_values(|e: (String, Json)| (e.0@, e.1@))
}

/// The value behind an optional reference.
pub open spec fn opt_json(o: Option<&Json>) -> Option<JsonView> {
    match o {
        Some(j) => Some(j@),
        None => None,
    }
}

/// The value of an optional JSON value.
pub open spec fn opt_value(o: Option<Json>) -> Option<JsonView> {
    match o {
        Some(j) => Some(j@),
        None => None,
    }
}

/// The value of a result.
pub open spec fn value_result(r: Result<Json, String>) -> Result<JsonView, Seq<char>> {
    match r {
        Ok(j) => Ok(j@),
        Err(e) => Err(e@),
    }
}

/// The values of a result.
pub open spec fn list_result(r: Result<Vec<Json>, String>) -> Result<Seq<JsonView>, Seq<char>> {
    match r {
        Ok(items) => Ok(values(items@)),
        Err(e) => Err(e@),
    }
}

/// An array is its items, and an object its fields.
pub broadcast proof fn lemma_view(j: Json)
    ensures
        #![trigger j@]
        j is Array ==> j@ == JsonView::Array(values(j->Array_0@)),
        j is Object ==> j@ == JsonView::Object(fields_of(j->Object_0@)),
{
    if let Json::Array(items) = j {
        assert forall|i: int| 0 <= i < items@.len() implies #[trigger] j@->Array_0[i] == values(
            items@,
        )[i] by {
            assert(j@->Array_0[i] == items@[i]@);
        }
        assert(j@->Array_0 =~= values(j->Array_0@));
    }
    if let Json::Object(fields) = j {
        assert forall|i: int| 0 <= i < fields@.len() implies #[trigger] j@->Object_0[i]
            == fields_of(fields@)[i] by {
            assert(j@->Object_0[i] == (fields@[i].0@, fields@[i].1@));
        }
        assert(j@->Object_0 =~= fields_of(j->Object_0@));
    }
}

/// Appending a value.
pub broadcast proof fn lemma_values_push(items: Seq<Json>, j: Json)
    ensures
        #[trigger] values(items.push(j)) == values(items).push(j@),
{
    assert(values(items.push(j)) =~= values(items).push(j@));
}

/// Appending a field.
pub broadcast proof fn lemma_fields_push(fields: Seq<(String, Json)>, e: (String, Json))
    ensures
        #[trigger] fields_of(fields.push(e)) == fields_of(fields).push((e.0@, e.1@)),
{
    assert(fields_of(fields.push(e)) =~= fields_of(fields).push((e.0@, e.1@)));
}

/// The views of lists that grow.
pub broadcast group group_json_views {
    lemma_view,
    lemma_values_push,
    lemma_fields_push,
}

/// Lexicographic order of byte strings.
pub open spec fn bytes_before(a: Seq<u8>, b: Seq<u8>) -> bool
    decreases a.len(),
{
    if b.len() == 0 {
        false
    } else if a.len() == 0 {
        true
    } else if a[0] != b[0] {
        a[0] < b[0]
    } else {
        bytes_before(a.drop_first(), b.drop_first())
    }
}

/// The order of keys: by the bytes of their UTF-8 encoding.
pub open spec fn key_before(a: Seq<char>, b: Seq<char>) -> bool {
    bytes_before(encode_utf8(a), encode_utf8(b))
}

/// `fields` with the field `key` set to `value`, at its place in the order.
pub open spec fn with_field(fields: Fields, key: Seq<char>, value: JsonView) -> Fields
    decreases fields.len(),
{
    if fields.len() == 0 {
        seq![(key, value)]
    } else if fields[0].0 == key {
        seq![(key, value)] + fields.drop_first()
    } else if key_before(key, fields[0].0) {
        seq![(key, value)] + fields
    } else {
        seq![fields[0]] + with_field(fields.drop_first(), key, value)
    }
}

/// The value of the field `key`.
pub open spec fn field(fields: Fields, key: Seq<char>) -> Option<JsonView>
    decreases fields.len(),
{
    if fields.len() == 0 {
        None
    } else if fields[0].0 == key {
        Some(fields[0].1)
    } else {
        field(fields.drop_first(), key)
    }
}

/// Whether the keys stand in ascending order, each once.
pub open spec fn ascending(fields: Fields) -> bool {
    forall|i: int, j: int|
        0 <= i < j < fields.len() ==> key_before(#[trigger] fields[i].0, #[trigger] fields[j].0)
}

/// The kinds of numbers that `serde_json` tells apart.
pub enum NumberKind {
    PosInt(u64),
    NegInt(i64),
    Float,
}

/// Name for what a `serde_json::Number` holds.
pub uninterp spec fn number_kind(n: serde_json::Number) -> NumberKind;

impl JsonNumber {
    /// A negative integer is below zero, and a carried number is no integer.
    pub open spec fn wf(self) -> bool {
        match self {
            JsonNumber::PosInt(_) => true,
            JsonNumber::NegInt(k) => k < 0,
            JsonNumber::Float(n) => number_kind(n) is Float,
        }
    }
}

impl JsonView {
    /// Validity: objects have ascending keys and numbers stand in their one form.
    pub open spec fn wf(self) -> bool
        decreases self,
    {
        match self {
            JsonView::Number(n) => n.wf(),
            JsonView::Array(items) => forall|i: int|
                0 <= i < items.len() ==> (#[trigger] items[i]).wf(),
            JsonView::Object(fields) => ascending(fields) && forall|i: int|
                0 <= i < fields.len() ==> (#[trigger] fields[i]).1.wf(),
            _ => true,
        }
    }

    /// The object without fields.
    pub open spec fn object() -> JsonView {
        JsonView::Object(Seq::empty())
    }

    /// The object with one more field, or with a field replaced.
    pub open spec fn with(self, key: Seq<char>, value: JsonView) -> JsonView {
        match self {
            JsonView::Object(fields) => JsonView::Object(with_field(fields, key, value)),
            _ => self,
        }
    }

    /// `with` where there is a value, and the same object where there is none.
    pub open spec fn with_some(self, key: Seq<char>, value: Option<JsonView>) -> JsonView {
        match value {
            Some(v) => self.with(key, v),
            None => self,
        }
    }

    /// The array without items.
    pub open spec fn list() -> JsonView {
        JsonView::Array(Seq::empty())
    }

    /// The array with one more item at its end.
    pub open spec fn item(self, value: JsonView) -> JsonView {
        match self {
            JsonView::Array(items) => JsonView::Array(items.push(value)),
            _ => self,
        }
    }

    /// A natural number.
    pub open spec fn number(n: u64) -> JsonView {
        JsonView::Number(JsonNumber::PosInt(n))
    }

    /// The value of a field of an object.
    pub open spec fn get(self, key: Seq<char>) -> Option<JsonView> {
        match self {
            JsonView::Object(fields) => field(fields, key),
            _ => None,
        }
    }

    /// The characters of a string value.
    pub open spec fn as_text(self) -> Option<Seq<char>> {
        match self {
            JsonView::Text(s) => Some(s),
            _ => None,
        }
    }

    /// The value of a natural number.
    pub open spec fn as_u64(self) -> Option<u64> {
        match self {
            JsonView::Number(JsonNumber::PosInt(n)) => Some(n),
            _ => None,
        }
    }

    /// The items of an array.
    pub open spec fn as_array(self) -> Option<Seq<JsonView>> {
        match self {
            JsonView::Array(items) => Some(items),
            _ => None,
        }
    }

    /// The string value of a field.
    pub open spec fn get_text(self, key: Seq<char>) -> Option<Seq<char>> {
        match self.get(key) {
            Some(v) => v.as_text(),
            None => None,
        }
    }

    /// The natural number in a field.
    pub open spec fn get_u64(self, key: Seq<char>) -> Option<u64> {
        match self.get(key) {
            Some(v) => v.as_u64(),
            None => None,
        }
    }

    /// The array in a field.
    pub open spec fn get_array(self, key: Seq<char>) -> Option<Seq<JsonView>> {
        match self.get(key) {
            Some(v) => v.as_array(),
            None => None,
        }
    }
}

/// A field reads back as it was set, and the other fields are untouched.
pub proof fn law_field_reads_back(
    fields: Fields,
    key: Seq<char>,
    value: JsonView,
    other: Seq<char>,
)
    ensures
        field(with_field(fields, key, value), key) == Some(value),
        other != key ==> field(with_field(fields, key, value), other) == field(fields, other),
    decreases fields.len(),
{
    let out = with_field(fields, key, value);
    if fields.len() == 0 {
        assert(out.drop_first() =~= fields);
    } else if fields[0].0 == key {
        assert(out.drop_first() =~= fields.drop_first());
    } else if key_before(key, fields[0].0) {
        assert(out.drop_first() =~= fields);
    } else {
        assert(out.drop_first() =~= with_field(fields.drop_first(), key, value));
        law_field_reads_back(fields.drop_first(), key, value, other);
    }
}

/// Reading a field of an object after setting one.
pub broadcast proof fn lemma_get_with(j: JsonView, key: Seq<char>, value: JsonView, other: Seq<char>)
    requires
        j is Object,
    ensures
        #[trigger] j.with(key, value).get(other) == if other == key {
            Some(value)
        } else {
            j.get(other)
        },
{
    law_field_reads_back(j->Object_0, key, value, other);
}

proof fn lemma_bytes_order(a: Seq<u8>, b: Seq<u8>)
    ensures
        !bytes_before(a, a),
        a == b || bytes_before(a, b) || bytes_before(b, a),
    decreases a.len(),
{
    if a.len() > 0 {
        if b.len() > 0 && a[0] == b[0] {
            lemma_bytes_order(a.drop_first(), b.drop_first());
            if a.drop_first() == b.drop_first() {
                assert(a =~= seq![a[0]] + a.drop_first());
                assert(b =~= seq![b[0]] + b.drop_first());
            }
        } else {
            lemma_bytes_order(a.drop_first(), a.drop_first());
        }
    } else if b.len() == 0 {
        assert(a =~= b);
    }
}

proof fn lemma_bytes_transitive(a: Seq<u8>, b: Seq<u8>, c: Seq<u8>)
    requires
        bytes_before(a, b),
        bytes_before(b, c),
    ensures
        bytes_before(a, c),
    decreases a.len(),
{
    if a.len() > 0 && a[0] == b[0] && b[0] == c[0] {
        lemma_bytes_transitive(a.drop_first(), b.drop_first(), c.drop_first());
    }
}

/// No key comes before itself, and of two different keys one comes before the other.
pub proof fn lemma_keys_ordered(a: Seq<char>, b: Seq<char>)
    ensures
        !key_before(a, a),
        a == b || key_before(a, b) || key_before(b, a),
{
    lemma_bytes_order(encode_utf8(a), encode_utf8(b));
    if encode_utf8(a) == encode_utf8(b) {
        crate::text::lemma_encoding_injective(a, b);
    }
}

/// The fields after setting one: the new one and such as were there before.
pub proof fn lemma_with_field_keys(fields: Fields, key: Seq<char>, value: JsonView)
    ensures
        with_field(fields, key, value).len() > 0,
        forall|i: int|
            0 <= i < with_field(fields, key, value).len() ==> {
                ||| (#[trigger] with_field(fields, key, value)[i]) == (key, value)
                ||| exists|j: int|
                    0 <= j < fields.len() && #[trigger] fields[j] == with_field(fields, key, value)[i]
            },
    decreases fields.len(),
{
    let out = with_field(fields, key, value);
    if fields.len() == 0 {
    } else if fields[0].0 == key {
        assert forall|i: int| 0 <= i < out.len() implies (#[trigger] out[i]) == (key, value)
            || exists|j: int| 0 <= j < fields.len() && #[trigger] fields[j] == out[i] by {
            if i > 0 {
                assert(fields[i] == out[i]);
            }
        }
    } else if key_before(key, fields[0].0) {
        assert forall|i: int| 0 <= i < out.len() implies (#[trigger] out[i]) == (key, value)
            || exists|j: int| 0 <= j < fields.len() && #[trigger] fields[j] == out[i] by {
            if i > 0 {
                assert(fields[i - 1] == out[i]);
            }
        }
    } else {
        let rest = fields.drop_first();
        lemma_with_field_keys(rest, key, value);
        let tail = with_field(rest, key, value);
        assert forall|i: int| 0 <= i < out.len() implies (#[trigger] out[i]) == (key, value)
            || exists|j: int| 0 <= j < fields.len() && #[trigger] fields[j] == out[i] by {
            if i == 0 {
                assert(fields[0] == out[0]);
            } else {
                assert(tail[i - 1] == out[i]);
                if tail[i - 1] != (key, value) {
                    let j = choose|j: int| 0 <= j < rest.len() && #[trigger] rest[j] == tail[i - 1];
                    assert(fields[j + 1] == out[i]);
                }
            }
        }
    }
}

/// Setting a field keeps the keys ascending.
pub proof fn law_keys_stay_ascending(fields: Fields, key: Seq<char>, value: JsonView)
    requires
        ascending(fields),
    ensures
        ascending(with_field(fields, key, value)),
    decreases fields.len(),
{
    let out = with_field(fields, key, value);
    if fields.len() == 0 {
    } else if fields[0].0 == key {
        assert forall|i: int, j: int| 0 <= i < j < out.len() implies key_before(
            #[trigger] out[i].0,
            #[trigger] out[j].0,
        ) by {
            assert(out[i].0 == fields[i].0);
            assert(out[j].0 == fields[j].0);
        }
    } else if key_before(key, fields[0].0) {
        assert forall|i: int, j: int| 0 <= i < j < out.len() implies key_before(
            #[trigger] out[i].0,
            #[trigger] out[j].0,
        ) by {
            assert(out[j].0 == fields[j - 1].0);
            if i > 0 {
                assert(out[i].0 == fields[i - 1].0);
            } else if j > 1 {
                assert(key_before(fields[0].0, fields[j - 1].0));
                lemma_bytes_transitive(
                    encode_utf8(key),
                    encode_utf8(fields[0].0),
                    encode_utf8(fields[j - 1].0),
                );
            }
        }
    } else {
        let rest = fields.drop_first();
        assert forall|i: int, j: int| 0 <= i < j < rest.len() implies key_before(
            #[trigger] rest[i].0,
            #[trigger] rest[j].0,
        ) by {
            assert(rest[i].0 == fields[i + 1].0);
            assert(rest[j].0 == fields[j + 1].0);
        }
        law_keys_stay_ascending(rest, key, value);
        lemma_with_field_keys(rest, key, value);
        lemma_keys_ordered(key, fields[0].0);
        let tail = with_field(rest, key, value);
        assert forall|i: int, j: int| 0 <= i < j < out.len() implies key_before(
            #[trigger] out[i].0,
            #[trigger] out[j].0,
        ) by {
            assert(out[j] == tail[j - 1]);
            if i > 0 {
                assert(out[i] == tail[i - 1]);
            } else if tail[j - 1] != (key, value) {
                let m = choose|m: int| 0 <= m < rest.len() && #[trigger] rest[m] == tail[j - 1];
                assert(rest[m] == fields[m + 1]);
            }
        }
    }
}

/// Setting a valid field in a valid object gives a valid object.
pub broadcast proof fn lemma_with_wf(j: JsonView, key: Seq<char>, value: JsonView)
    requires
        j.wf(),
        value.wf(),
    ensures
        (#[trigger] j.with(key, value)).wf(),
{
    if j is Object {
        let fields = j->Object_0;
        law_keys_stay_ascending(fields, key, value);
        lemma_with_field_keys(fields, key, value);
        let out = with_field(fields, key, value);
        assert forall|i: int| 0 <= i < out.len() implies (#[trigger] out[i]).1.wf() by {
            if out[i] != (key, value) {
                let m = choose|m: int| 0 <= m < fields.len() && #[trigger] fields[m] == out[i];
                assert(fields[m].1.wf());
            }
        }
    }
}

/// Appending a valid item to a valid array gives a valid array.
pub broadcast proof fn lemma_item_wf(j: JsonView, value: JsonView)
    requires
        j.wf(),
        value.wf(),
    ensures
        (#[trigger] j.item(value)).wf(),
{
    if j is Array {
        let items = j->Array_0;
        let out = items.push(value);
        assert forall|i: int| 0 <= i < out.len() implies (#[trigger] out[i]).wf() by {
            if i < items.len() {
                assert(items[i].wf());
            }
        }
    }
}

/// A field of a valid object is valid.
pub broadcast proof fn lemma_get_wf(j: JsonView, key: Seq<char>)
    requires
        j.wf(),
    ensures
        (#[trigger] j.get(key)) matches Some(v) ==> v.wf(),
{
    if j is Object {
        lemma_field_member(j->Object_0, key);
        if let Some(v) = j.get(key) {
            let i = choose|i: int|
                0 <= i < j->Object_0.len() && (#[trigger] j->Object_0[i]) == (key, v);
            assert(j->Object_0[i].1.wf());
        }
    }
}

/// A field that is found is one of the fields.
pub proof fn lemma_field_member(fields: Fields, key: Seq<char>)
    ensures
        field(fields, key) matches Some(v) ==> exists|i: int|
            0 <= i < fields.len() && (#[trigger] fields[i]) == (key, v),
    decreases fields.len(),
{
    if fields.len() > 0 {
        if fields[0].0 == key {
            assert(fields[0] == (key, fields[0].1));
        } else {
            let rest = fields.drop_first();
            lemma_field_member(rest, key);
            if let Some(v) = field(rest, key) {
                let i = choose|i: int| 0 <= i < rest.len() && (#[trigger] rest[i]) == (key, v);
                assert(fields[i + 1] == (key, v));
            }
        }
    }
}

/// Whether the bytes `a` come before the bytes `b`.
fn is_before(a: &[u8], b: &[u8]) -> (r: bool)
    ensures
        r == bytes_before(a@, b@),
{
    let mut i: usize = 0;
    proof {
        assert(a@.skip(0) =~= a@);
        assert(b@.skip(0) =~= b@);
    }
    while i < a.len() && i < b.len()
        invariant
            i <= a@.len(),
            i <= b@.len(),
            bytes_before(a@, b@) == bytes_before(a@.skip(i as int), b@.skip(i as int)),
        decreases a@.len() - i,
    {
        if a[i] != b[i] {
            return a[i] < b[i];
        }
        proof {
            assert(a@.skip(i as int).drop_first() =~= a@.skip(i + 1));
            assert(b@.skip(i as int).drop_first() =~= b@.skip(i + 1));
        }
        i += 1;
    }
    i < b.len()
}

proof fn lemma_with_field_skip(fields: Fields, key: Seq<char>, value: JsonView, i: int)
    requires
        0 <= i <= fields.len(),
        forall|j: int|
            0 <= j < i ==> (#[trigger] fields[j]).0 != key && !key_before(key, fields[j].0),
    ensures
        with_field(fields, key, value) == fields.take(i) + with_field(fields.skip(i), key, value),
    decreases i,
{
    if i == 0 {
        assert(fields.skip(0) =~= fields);
        assert(fields.take(0) + with_field(fields, key, value) =~= with_field(fields, key, value));
    } else {
        let rest = fields.drop_first();
        assert forall|j: int| 0 <= j < i - 1 implies (#[trigger] rest[j]).0 != key && !key_before(
            key,
            rest[j].0,
        ) by {
            assert(rest[j] == fields[j + 1]);
        }
        lemma_with_field_skip(rest, key, value, i - 1);
        assert(fields[0].0 != key);
        assert(rest.skip(i - 1) =~= fields.skip(i));
        assert(seq![fields[0]] + (rest.take(i - 1) + with_field(fields.skip(i), key, value))
            =~= fields.take(i) + with_field(fields.skip(i), key, value));
    }
}

/// Sets a field at its place in the order of the keys.
pub fn put(fields: &mut Vec<(String, Json)>, key: &str, value: Json)
    ensures
        fields_of(final(fields)@) == with_field(fields_of(old(fields)@), key@, value@),
{
    let ghost before = fields_of(fields@);
    let ghost v = value@;
    let mut i: usize = 0;
    while i < fields.len()
        invariant
            fields@ == old(fields)@,
            before == fields_of(fields@),
            i <= fields@.len(),
            forall|j: int|
                0 <= j < i ==> (#[trigger] before[j]).0 != key@ && !key_before(key@, before[j].0),
        ensures
            i < fields@.len() ==> before[i as int].0 == key@ || key_before(
                key@,
                before[i as int].0,
            ),
        decreases fields@.len() - i,
    {
        assert(before[i as int].0 == fields@[i as int].0@);
        if same_text(fields[i].0.as_str(), key) || is_before(
            key.as_bytes(),
            fields[i].0.as_str().as_bytes(),
        ) {
            break;
        }
        i += 1;
    }
    proof {
        lemma_with_field_skip(before, key@, v, i as int);
        assert(before.len() == fields@.len());
        if i < fields@.len() {
            assert(before.skip(i as int)[0] == before[i as int]);
        }
    }
    if i == fields.len() {
        fields.push((key.to_owned(), value));
        assert(fields_of(fields@) =~= before.take(i as int) + seq![(key@, v)]);
    } else if same_text(fields[i].0.as_str(), key) {
        fields.set(i, (key.to_owned(), value));
        assert(fields_of(fields@) =~= before.take(i as int) + (seq![(key@, v)] + before.skip(
            i as int,
        ).drop_first()));
    } else {
        fields.insert(i, (key.to_owned(), value));
        assert(fields_of(fields@) =~= before.take(i as int) + (seq![(key@, v)] + before.skip(
            i as int,
        )));
    }
}

proof fn lemma_field_skip(fields: Fields, key: Seq<char>, i: int)
    requires
        0 <= i <= fields.len(),
        forall|j: int| 0 <= j < i ==> (#[trigger] fields[j]).0 != key,
    ensures
        field(fields, key) == field(fields.skip(i), key),
    decreases i,
{
    if i == 0 {
        assert(fields.skip(0) =~= fields);
    } else {
        lemma_field_skip(fields.drop_first(), key, i - 1);
        assert(fields.drop_first().skip(i - 1) =~= fields.skip(i));
        assert(fields[0].0 != key);
    }
}

impl Clone for Json {
    fn clone(&self) -> (r: Self)
        ensures
            r@ == self@,
        decreases self,
    {
        broadcast use group_json_views;

        match self {
            Json::Null => Json::Null,
            Json::Bool(b) => Json::Bool(*b),
            Json::Number(n) => Json::Number(n.clone()),
            Json::Text(s) => Json::Text(s.clone()),
            Json::Array(items) => {
                let mut out: Vec<Json> = Vec::new();
                let mut i: usize = 0;
                while i < items.len()
                    invariant
                        i <= items@.len(),
                        self is Array,
                        items == self->Array_0,
                        values(out@) == values(items@).take(i as int),
                    decreases items@.len() - i,
                {
                    assert(decreases_to!(self => items@[i as int]));
                    let item = items[i].clone();
                    proof {
                        assert(values(items@).take(i + 1) =~= values(items@).take(i as int).push(
                            items@[i as int]@,
                        ));
                    }
                    out.push(item);
                    i += 1;
                }
                assert(values(out@) =~= values(items@));
                Json::Array(out)
            },
            Json::Object(fields) => {
                let mut out: Vec<(String, Json)> = Vec::new();
                let mut i: usize = 0;
                while i < fields.len()
                    invariant
                        i <= fields@.len(),
                        self is Object,
                        fields == self->Object_0,
                        fields_of(out@) == fields_of(fields@).take(i as int),
                    decreases fields@.len() - i,
                {
                    assert(decreases_to!(self => fields@[i as int].1));
                    let entry = (fields[i].0.clone(), fields[i].1.clone());
                    proof {
                        assert(fields_of(fields@).take(i + 1) =~= fields_of(fields@).take(
                            i as int,
                        ).push((entry.0@, entry.1@)));
                    }
                    out.push(entry);
                    i += 1;
                }
                assert(fields_of(out@) =~= fields_of(fields@));
                Json::Object(out)
            },
        }
    }
}

impl Clone for JsonNumber {
    fn clone(&self) -> (r: Self)
        ensures
            r == *self,
    {
        match self {
            JsonNumber::PosInt(n) => JsonNumber::PosInt(*n),
            JsonNumber::NegInt(n) => JsonNumber::NegInt(*n),
            JsonNumber::Float(n) => JsonNumber::Float(n.clone()),
        }
    }
}

impl Json {
    /// The object without fields.
    pub fn object() -> (r: Json)
        ensures
            r@ == JsonView::object(),
            r@.wf(),
    {
        let r = Json::Object(Vec::new());
        proof {
            lemma_view(r);
            assert(r@->Object_0 =~= Seq::<(Seq<char>, JsonView)>::empty());
        }
        r
    }

    /// The object with the field `key` set to `value`.
    pub fn with(self, key: &str, value: Json) -> (r: Json)
        ensures
            r@ == self@.with(key@, value@),
            self@.wf() && value@.wf() ==> r@.wf(),
    {
        broadcast use {group_json_views, lemma_with_wf};

        match self {
            Json::Object(fields) => {
                let mut fields = fields;
                put(&mut fields, key, value);
                Json::Object(fields)
            },
            other => other,
        }
    }

    /// The object with the field `key` set where there is a value for it.
    pub fn with_some(self, key: &str, value: Option<Json>) -> (r: Json)
        ensures
            r@ == self@.with_some(key@, opt_value(value)),
            self@.wf() && (opt_value(value) matches Some(v) ==> v.wf()) ==> r@.wf(),
    {
        match value {
            Some(v) => self.with(key, v),
            None => self,
        }
    }

    /// The array without items.
    pub fn list() -> (r: Json)
        ensures
            r@ == JsonView::list(),
            r@.wf(),
    {
        let r = Json::Array(Vec::new());
        proof {
            lemma_view(r);
            assert(r@->Array_0 =~= Seq::<JsonView>::empty());
        }
        r
    }

    /// The array with `value` behind its items.
    pub fn item(self, value: Json) -> (r: Json)
        ensures
            r@ == self@.item(value@),
            self@.wf() && value@.wf() ==> r@.wf(),
    {
        broadcast use {group_json_views, lemma_item_wf};

        match self {
            Json::Array(items) => {
                let mut items = items;
                let ghost before = values(items@);
                let ghost v = value@;
                items.push(value);
                assert(values(items@) =~= before.push(v));
                Json::Array(items)
            },
            other => other,
        }
    }

    /// The array of the given items.
    pub fn array(items: Vec<Json>) -> (r: Json)
        ensures
            r@ == JsonView::Array(values(items@)),
            (forall|i: int| 0 <= i < items@.len() ==> (#[trigger] items@[i])@.wf()) ==> r@.wf(),
    {
        let r = Json::Array(items);
        proof {
            lemma_view(r);
            if forall|i: int| 0 <= i < items@.len() ==> (#[trigger] items@[i])@.wf() {
                assert forall|i: int| 0 <= i < items@.len() implies (#[trigger] values(
                    items@,
                )[i]).wf() by {
                    assert(items@[i]@.wf());
                }
            }
        }
        r
    }

    /// A string value.
    pub fn text(s: &str) -> (r: Json)
        ensures
            r@ == JsonView::Text(s@),
            r@.wf(),
    {
        Json::Text(s.to_owned())
    }

    /// A natural number.
    pub fn number(n: u64) -> (r: Json)
        ensures
            r@ == JsonView::number(n),
            r@.wf(),
    {
        Json::Number(JsonNumber::PosInt(n))
    }

    /// The value of the field `key`; nothing where this is no object.
    pub fn get(&self, key: &str) -> (r: Option<&Json>)
        ensures
            opt_json(r) == self@.get(key@),
    {
        broadcast use group_json_views;

        match self {
            Json::Object(fields) => {
                let mut i: usize = 0;
                while i < fields.len()
                    invariant
                        i <= fields@.len(),
                        self@ == JsonView::Object(fields_of(fields@)),
                        forall|j: int|
                            0 <= j < i ==> (#[trigger] fields_of(fields@)[j]).0 != key@,
                    decreases fields@.len() - i,
                {
                    let ghost fs = fields_of(fields@);
                    if same_text(fields[i].0.as_str(), key) {
                        proof {
                            lemma_field_skip(fs, key@, i as int);
                            assert(fs.skip(i as int)[0] == fs[i as int]);
                        }
                        return Some(&fields[i].1);
                    }
                    i += 1;
                }
                proof {
                    lemma_field_skip(fields_of(fields@), key@, i as int);
                }
                None
            },
            _ => None,
        }
    }

    /// The text of a string value.
    pub fn as_str(&self) -> (r: Option<&str>)
        ensures
            crate::text::opt_str(r) == self@.as_text(),
    {
        match self {
            Json::Text(s) => Some(s.as_str()),
            _ => None,
        }
    }

    /// The value of a natural number.
    pub fn as_u64(&self) -> (r: Option<u64>)
        ensures
            r == self@.as_u64(),
    {
        match self {
            Json::Number(JsonNumber::PosInt(n)) => Some(*n),
            _ => None,
        }
    }

    /// The items of an array.
    pub fn as_array(&self) -> (r: Option<&Vec<Json>>)
        ensures
            r is Some == self@ is Array,
            r matches Some(items) ==> self@ == JsonView::Array(values(items@)),
    {
        broadcast use group_json_views;

        match self {
            Json::Array(items) => Some(items),
            _ => None,
        }
    }

    /// Whether this is an object.
    pub fn is_object(&self) -> (r: bool)
        ensures
            r == (self@ is Object),
    {
        match self {
            Json::Object(_) => true,
            _ => false,
        }
    }

    /// The text in the field `key`.
    pub fn get_str(&self, key: &str) -> (r: Option<&str>)
        ensures
            crate::text::opt_str(r) == self@.get_text(key@),
    {
        match self.get(key) {
            Some(v) => v.as_str(),
            None => None,
        }
    }

    /// The natural number in the field `key`.
    pub fn get_u64(&self, key: &str) -> (r: Option<u64>)
        ensures
            r == self@.get_u64(key@),
    {
        match self.get(key) {
            Some(v) => v.as_u64(),
            None => None,
        }
    }

    /// The array in the field `key`.
    pub fn get_array(&self, key: &str) -> (r: Option<&Vec<Json>>)
        ensures
            r is Some == self@.get_array(key@) is Some,
            r matches Some(items) ==> self@.get_array(key@) == Some(values(items@)),
    {
        match self.get(key) {
            Some(v) => v.as_array(),
            None => None,
        }
    }
}

/// A copy of an optional value.
pub fn clone_opt(o: Option<&Json>) -> (r: Option<Json>)
    ensures
        opt_value(r) == opt_json(o),
{
    match o {
        Some(j) => Some(j.clone()),
        None => None,
    }
}

/// What a field reads as by its type: a text, a natural number or an array, and nothing
/// where the field is missing or holds a value of another type.
pub proof fn law_fields_read_by_their_type(j: JsonView, key: Seq<char>)
    ensures
        match j.get(key) {
            Some(JsonView::Text(s)) => j.get_text(key) == Some(s),
            _ => j.get_text(key) is None,
        },
        match j.get(key) {
            Some(JsonView::Number(JsonNumber::PosInt(n))) => j.get_u64(key) == Some(n),
            _ => j.get_u64(key) is None,
        },
        match j.get(key) {
            Some(JsonView::Array(items)) => j.get_array(key) == Some(items),
            _ => j.get_array(key) is None,
        },
        !(j is Object) ==> j.get(key) is None,
{
}

/// A field of an object in order is found by its key, wherever it stands, and nothing is
/// found by another key.
pub proof fn law_fields_are_found_by_their_keys(fields: Fields, i: int, key: Seq<char>)
    requires
        ascending(fields),
        0 <= i < fields.len(),
    ensures
        JsonView::Object(fields).get(fields[i].0) == Some(fields[i].1),
        (forall|j: int| 0 <= j < fields.len() ==> (#[trigger] fields[j]).0 != key)
            ==> JsonView::Object(fields).get(key) is None,
{
    let own = fields[i].0;
    assert forall|j: int| 0 <= j < i implies (#[trigger] fields[j]).0 != own by {
        lemma_keys_ordered(own, own);
        assert(key_before(fields[j].0, fields[i].0));
    }
    lemma_field_skip(fields, own, i);
    assert(fields.skip(i)[0] == fields[i]);
    if forall|j: int| 0 <= j < fields.len() ==> (#[trigger] fields[j]).0 != key {
        lemma_field_skip(fields, key, fields.len() as int);
    }
}

/// Keys are ordered by their bytes: by the first in which they differ, and a key that
/// another one begins with comes before it.
pub proof fn law_keys_are_ordered_by_bytes(common: Seq<u8>, a: Seq<u8>, b: Seq<u8>)
    requires
        b.len() > 0,
        a.len() == 0 || a[0] < b[0],
    ensures
        bytes_before(common + a, common + b),
        !bytes_before(common + b, common + a),
    decreases common.len(),
{
    if common.len() == 0 {
        assert(common + a =~= a);
        assert(common + b =~= b);
    } else {
        law_keys_are_ordered_by_bytes(common.drop_first(), a, b);
        assert((common + a).drop_first() =~= common.drop_first() + a);
        assert((common + b).drop_first() =~= common.drop_first() + b);
    }
}

/// An item that is put behind a list stands there, and the others stay where they were.
pub proof fn law_items_stand_in_their_order(items: Seq<JsonView>, value: JsonView, i: int)
    ensures
        JsonView::Array(items).item(value) matches JsonView::Array(out) && out.len() == items.len()
            + 1 && out.last() == value && (0 <= i < items.len() ==> out[i] == items[i]),
{
}

} // verus!
