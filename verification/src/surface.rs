//! The surfaces that a binding can serve, and the bodies that they want.
//!
//! A tool hands out the envelope as it is. The contents of a resource and the
//! message of a prompt are bodies of their own shape round the response.

use vstd::prelude::*;

use crate::json::{Json, JsonView};
use crate::response::source_string;
use crate::text::{decimal_text, is_blank};

verus! {

/// Which surface a binding serves.
#[derive(Debug, Clone, Copy, PartialEq, Eq, Structural)]
pub enum Surface {
    /// A tool: the body of the result is passed on unchanged.
    Tool,
    /// A resource: the result becomes the contents of the resource.
    Resource,
    /// A prompt: the result becomes the message of the prompt.
    Prompt,
}

impl Default for Surface {
    fn default() -> (r: Self)
        ensures
            r is Tool,
    {
        Surface::Tool
    }
}

impl Surface {
    /// The name of the surface.
    pub open spec fn name(self) -> Seq<char> {
        match self {
            Surface::Tool => "tool"@,
            Surface::Resource => "resource"@,
            Surface::Prompt => "prompt"@,
        }
    }

    /// The name of the surface.
    pub fn as_str(self) -> (r: &'static str)
        ensures
            r@ == self.name(),
    {
        match self {
            Surface::Tool => "tool",
            Surface::Resource => "resource",
            Surface::Prompt => "prompt",
        }
    }
}

/// Whether a response says that it was cut. The bodies of a resource and a prompt
/// are complete documents of their own, so only a tool says so.
pub fn surface_truncated(surface: Surface, upstream_truncated: bool) -> (r: bool)
    ensures
        r == (surface is Tool && upstream_truncated),
{
    surface == Surface::Tool && upstream_truncated
}

/// A text that is not blank.
pub open spec fn present(s: Option<Seq<char>>) -> Option<Seq<char>> {
    match s {
        Some(t) if !crate::text::blank(t) => s,
        _ => None,
    }
}

/// The URI of a resource: the configured one, or else the one of the call.
pub open spec fn resource_uri(static_uri: Option<Seq<char>>, args: JsonView) -> Option<Seq<char>> {
    match present(static_uri) {
        Some(u) => Some(u),
        None => present(args.get_text("uri"@)),
    }
}

/// The URI of a resource: the configured one, or else the one of the call; none where
/// both are missing or blank.
pub fn resolve_resource_uri<'a>(static_uri: Option<&'a str>, arguments: &'a Json) -> (r: Option<
    &'a str,
>)
    ensures
        crate::text::opt_str(r) == resource_uri(crate::text::opt_str(static_uri), arguments@),
{
    if let Some(u) = static_uri {
        if !is_blank(u) {
            return Some(u);
        }
    }
    if let Some(u) = arguments.get_str("uri") {
        if !is_blank(u) {
            return Some(u);
        }
    }
    None
}

/// The contents of a resource: one entry, whose text is the given one.
pub open spec fn contents_body(uri: Seq<char>, text: Seq<char>) -> JsonView {
    JsonView::object().with(
        "contents"@,
        JsonView::list().item(
            JsonView::object().with("uri"@, JsonView::Text(uri)).with(
                "text"@,
                JsonView::Text(text),
            ).with("mimeType"@, JsonView::Text("application/json"@)),
        ),
    )
}

/// Puts a text into the contents of a resource.
pub fn contents_of(uri: &str, text: &str) -> (r: Json)
    ensures
        r@ == contents_body(uri@, text@),
        r@.wf(),
{
    Json::object().with(
        "contents",
        Json::list().item(
            Json::object().with("uri", Json::text(uri)).with("text", Json::text(text)).with(
                "mimeType",
                Json::text("application/json"),
            ),
        ),
    )
}

/// Puts a body, as JSON text, into the contents of a resource.
pub fn resource_contents_body(uri: &str, body: &Json) -> (r: Json)
    requires
        body@.wf(),
    ensures
        r@ == contents_body(uri@, crate::wire::json_text(body@)),
        r@.wf(),
{
    contents_of(uri, body.encode().as_str())
}

/// The message of a prompt: one of the user, whose text is the given one.
pub open spec fn messages_body(text: Seq<char>) -> JsonView {
    JsonView::object().with(
        "messages"@,
        JsonView::list().item(
            JsonView::object().with("role"@, JsonView::Text("user"@)).with(
                "content"@,
                JsonView::object().with("type"@, JsonView::Text("text"@)).with(
                    "text"@,
                    JsonView::Text(text),
                ),
            ),
        ),
    )
}

/// Puts a text into the message of a prompt.
pub fn messages_of(text: &str) -> (r: Json)
    ensures
        r@ == messages_body(text@),
        r@.wf(),
{
    Json::object().with(
        "messages",
        Json::list().item(
            Json::object().with("role", Json::text("user")).with(
                "content",
                Json::object().with("type", Json::text("text")).with("text", Json::text(text)),
            ),
        ),
    )
}

/// Puts a body, as JSON text, into the message of a prompt.
pub fn prompt_messages_body(body: &Json) -> (r: Json)
    requires
        body@.wf(),
    ensures
        r@ == messages_body(crate::wire::json_text(body@)),
        r@.wf(),
{
    messages_of(body.encode().as_str())
}

/// A resource in a listing.
#[derive(Debug, Clone, PartialEq, Eq)]
pub struct ListedResource {
    pub uri: String,
    pub name: Option<String>,
    pub description: Option<String>,
    pub mime_type: Option<String>,
}

/// What a listed resource says.
pub struct ResourceView {
    pub uri: Seq<char>,
    pub name: Option<Seq<char>>,
    pub description: Option<Seq<char>>,
    pub mime_type: Option<Seq<char>>,
}

impl View for ListedResource {
    type V = ResourceView;

    open spec fn view(&self) -> ResourceView {
        ResourceView {
            uri: self.uri@,
            name: crate::text::opt_string(self.name),
            description: crate::text::opt_string(self.description),
            mime_type: crate::text::opt_string(self.mime_type),
        }
    }
}

/// A page of a listing, and where the next one starts.
#[derive(Debug, Clone, PartialEq, Eq)]
pub struct ResourcePage {
    pub resources: Vec<ListedResource>,
    pub next_cursor: Option<String>,
}

/// The resources of a list.
pub open spec fn resources(items: Seq<ListedResource>) -> Seq<ResourceView> {
    items.map_values(|r: ListedResource| r@)
}

/// What a page says.
pub struct PageView {
    pub resources: Seq<ResourceView>,
    pub next_cursor: Option<Seq<char>>,
}

impl View for ResourcePage {
    type V = PageView;

    open spec fn view(&self) -> PageView {
        PageView {
            resources: resources(self.resources@),
            next_cursor: crate::text::opt_string(self.next_cursor),
        }
    }
}

/// The page without resources, behind which there is none.
pub open spec fn empty_view() -> PageView {
    PageView { resources: Seq::empty(), next_cursor: None }
}

impl ResourcePage {
    /// The page without resources, behind which there is none.
    pub fn empty() -> (r: Self)
        ensures
            r@ == empty_view(),
    {
        let r = ResourcePage { resources: Vec::new(), next_cursor: None };
        assert(r@.resources =~= Seq::<ResourceView>::empty());
        r
    }
}

/// The text of a field that may not be configured.
pub open spec fn field_text(hit: JsonView, field: Option<Seq<char>>) -> Option<Seq<char>> {
    match field {
        Some(f) => crate::response::source_text(hit, f),
        None => None,
    }
}

fn text_in(hit: &Json, field: Option<&str>) -> (r: Option<String>)
    ensures
        crate::text::opt_string(r) == field_text(hit@, crate::text::opt_str(field)),
{
    match field {
        Some(f) => source_string(hit, f),
        None => None,
    }
}

/// The resources that some hits describe. A hit without a URI describes none.
pub open spec fn listed(
    hits: Seq<JsonView>,
    uri_field: Seq<char>,
    name_field: Option<Seq<char>>,
    description_field: Option<Seq<char>>,
) -> Seq<ResourceView>
    decreases hits.len(),
{
    if hits.len() == 0 {
        Seq::empty()
    } else {
        let before = listed(hits.drop_last(), uri_field, name_field, description_field);
        match crate::response::source_text(hits.last(), uri_field) {
            Some(uri) => before.push(
                ResourceView {
                    uri,
                    name: field_text(hits.last(), name_field),
                    description: field_text(hits.last(), description_field),
                    mime_type: None,
                },
            ),
            None => before,
        }
    }
}

/// A page of a listing. Behind a full page the next one starts.
pub open spec fn page_of(
    hits: Seq<JsonView>,
    uri_field: Seq<char>,
    name_field: Option<Seq<char>>,
    description_field: Option<Seq<char>>,
    from: u64,
    page_size: u64,
) -> PageView {
    PageView {
        resources: listed(hits, uri_field, name_field, description_field),
        next_cursor: if hits.len() >= page_size {
            Some(crate::text::decimal((from + hits.len()) as nat))
        } else {
            None
        },
    }
}

/// Turns hits into a page of a listing.
pub fn hits_to_resource_page(
    hits: &[Json],
    uri_field: &str,
    name_field: Option<&str>,
    description_field: Option<&str>,
    from: u64,
    page_size: u64,
) -> (r: ResourcePage)
    requires
        hits@.len() >= page_size ==> from + hits@.len() <= u64::MAX,
    ensures
        r@ == page_of(
            crate::json::values(hits@),
            uri_field@,
            crate::text::opt_str(name_field),
            crate::text::opt_str(description_field),
            from,
            page_size,
        ),
{
    let ghost all = crate::json::values(hits@);
    let ghost name = crate::text::opt_str(name_field);
    let ghost description = crate::text::opt_str(description_field);
    let mut out: Vec<ListedResource> = Vec::new();
    let mut i: usize = 0;
    assert(resources(out@) =~= Seq::<ResourceView>::empty());
    while i < hits.len()
        invariant
            i <= hits@.len(),
            all == crate::json::values(hits@),
            name == crate::text::opt_str(name_field),
            description == crate::text::opt_str(description_field),
            resources(out@) == listed(all.take(i as int), uri_field@, name, description),
        decreases hits@.len() - i,
    {
        proof {
            assert(all.take(i + 1).drop_last() =~= all.take(i as int));
            assert(all.take(i + 1).last() == hits@[i as int]@);
        }
        if let Some(uri) = source_string(&hits[i], uri_field) {
            let resource = ListedResource {
                uri,
                name: text_in(&hits[i], name_field),
                description: text_in(&hits[i], description_field),
                mime_type: None,
            };
            assert(resources(out@.push(resource)) =~= resources(out@).push(resource@));
            out.push(resource);
        }
        i += 1;
    }
    assert(all.take(i as int) =~= all);
    let n = hits.len() as u64;
    let next_cursor = if n >= page_size {
        Some(decimal_text((from + n) as u128))
    } else {
        None
    };
    ResourcePage { resources: out, next_cursor }
}

/// The cursor behind a full page reads as the start of the next one: as many hits on
/// as the page had.
pub proof fn law_cursor_continues_behind_page(
    hits: Seq<JsonView>,
    uri_field: Seq<char>,
    name_field: Option<Seq<char>>,
    description_field: Option<Seq<char>>,
    from: u64,
    page_size: u64,
)
    requires
        hits.len() >= page_size ==> from + hits.len() <= u64::MAX,
    ensures
        ({
            let page = page_of(hits, uri_field, name_field, description_field, from, page_size);
            &&& page.next_cursor is Some <==> hits.len() >= page_size
            &&& page.next_cursor matches Some(c) ==> crate::text::unsigned_value(c) == Some(
                (from + hits.len()) as u64,
            )
        }),
{
    if hits.len() >= page_size {
        crate::text::law_decimal_reads_back((from + hits.len()) as u64);
    }
}

/// The texts that some hits have in a field.
pub open spec fn field_texts(hits: Seq<JsonView>, field: Seq<char>) -> Seq<Seq<char>>
    decreases hits.len(),
{
    if hits.len() == 0 {
        Seq::empty()
    } else {
        let before = field_texts(hits.drop_last(), field);
        match crate::response::source_text(hits.last(), field) {
            Some(t) => before.push(t),
            None => before,
        }
    }
}

/// The first hits, at most so many of them.
pub open spec fn first_hits(hits: Seq<JsonView>, max: usize) -> Seq<JsonView> {
    if hits.len() <= max {
        hits
    } else {
        hits.take(max as int)
    }
}

/// The candidates of a completion: the texts that the first hits have in a field.
pub fn hits_to_completion_values(hits: &[Json], field: &str, max: usize) -> (r: Vec<String>)
    ensures
        crate::text::strings(r@) == field_texts(
            first_hits(crate::json::values(hits@), max),
            field@,
        ),
{
    let ghost all = crate::json::values(hits@);
    let n: usize = if hits.len() <= max {
        hits.len()
    } else {
        max
    };
    let mut out: Vec<String> = Vec::new();
    let mut i: usize = 0;
    assert(crate::text::strings(out@) =~= Seq::<Seq<char>>::empty());
    while i < n
        invariant
            i <= n <= hits@.len(),
            all == crate::json::values(hits@),
            crate::text::strings(out@) == field_texts(all.take(i as int), field@),
        decreases n - i,
    {
        proof {
            assert(all.take(i + 1).drop_last() =~= all.take(i as int));
            assert(all.take(i + 1).last() == hits@[i as int]@);
        }
        if let Some(t) = source_string(&hits[i], field) {
            proof {
                crate::text::lemma_strings_push(out@, t);
            }
            out.push(t);
        }
        i += 1;
    }
    assert(all.take(n as int) =~= first_hits(all, max));
    out
}

/// A completion has no more candidates than were asked for.
pub proof fn law_completion_within_limit(hits: Seq<JsonView>, field: Seq<char>, max: usize)
    ensures
        field_texts(first_hits(hits, max), field).len() <= max,
{
    lemma_texts_within(first_hits(hits, max), field);
}

proof fn lemma_texts_within(hits: Seq<JsonView>, field: Seq<char>)
    ensures
        field_texts(hits, field).len() <= hits.len(),
    decreases hits.len(),
{
    if hits.len() > 0 {
        lemma_texts_within(hits.drop_last(), field);
    }
}

/// The resource that a hit describes: none where it has no text at the path of the URI.
/// Its name and its description are the texts at their own paths, and either is there or
/// not whatever the other is.
pub open spec fn described_by(
    hit: JsonView,
    uri_field: Seq<char>,
    name_field: Option<Seq<char>>,
    description_field: Option<Seq<char>>,
    r: ResourceView,
) -> bool {
    &&& crate::response::source_text(hit, uri_field) == Some(r.uri)
    &&& name_field matches Some(f) ==> r.name == crate::response::source_text(hit, f)
    &&& name_field is None ==> r.name is None
    &&& description_field matches Some(f) ==> r.description == crate::response::source_text(hit, f)
    &&& description_field is None ==> r.description is None
    &&& r.mime_type is None
}

/// A listing is its hits in their order. Whatever stands before a hit and behind it, the
/// hit adds the one resource that it describes, or nothing where it has no URI.
pub proof fn law_each_hit_lists_what_it_describes(
    before: Seq<JsonView>,
    hit: JsonView,
    behind: Seq<JsonView>,
    uri_field: Seq<char>,
    name_field: Option<Seq<char>>,
    description_field: Option<Seq<char>>,
)
    ensures
        ({
            let first = listed(before, uri_field, name_field, description_field);
            let last = listed(behind, uri_field, name_field, description_field);
            let all = listed(
                before + seq![hit] + behind,
                uri_field,
                name_field,
                description_field,
            );
            &&& crate::response::source_text(hit, uri_field) is None ==> all == first + last
            &&& crate::response::source_text(hit, uri_field) is Some ==> {
                &&& all.len() == first.len() + 1 + last.len()
                &&& all.take(first.len() as int) == first
                &&& described_by(
                    hit,
                    uri_field,
                    name_field,
                    description_field,
                    all[first.len() as int],
                )
                &&& all.skip(first.len() as int + 1) == last
            }
        }),
        listed(Seq::empty(), uri_field, name_field, description_field) == Seq::<
            ResourceView,
        >::empty(),
    decreases behind.len(),
{
    let first = listed(before, uri_field, name_field, description_field);
    let all = listed(before + seq![hit] + behind, uri_field, name_field, description_field);
    let hits = before + seq![hit] + behind;
    if behind.len() == 0 {
        assert(hits.drop_last() =~= before);
        assert(hits.last() == hit);
        let last = listed(behind, uri_field, name_field, description_field);
        assert(last =~= Seq::empty());
        if crate::response::source_text(hit, uri_field) is None {
            assert(all =~= first + last);
        } else {
            assert(all.take(first.len() as int) =~= first);
            assert(all.skip(first.len() as int + 1) =~= last);
        }
    } else {
        law_each_hit_lists_what_it_describes(
            before,
            hit,
            behind.drop_last(),
            uri_field,
            name_field,
            description_field,
        );
        assert(hits.drop_last() =~= before + seq![hit] + behind.drop_last());
        assert(hits.last() == behind.last());
        let shorter = listed(hits.drop_last(), uri_field, name_field, description_field);
        let last = listed(behind, uri_field, name_field, description_field);
        if crate::response::source_text(hit, uri_field) is None {
            assert(all =~= first + last);
        } else {
            assert(all.take(first.len() as int) =~= shorter.take(first.len() as int));
            assert(all.skip(first.len() as int + 1) =~= last);
            assert(all[first.len() as int] == shorter[first.len() as int]);
        }
    }
}

/// Every listed resource stems from a hit, and the resources stand in the order of the
/// hits that they stem from, no two from one.
pub proof fn law_listed_resources_stem_from_hits(
    hits: Seq<JsonView>,
    uri_field: Seq<char>,
    name_field: Option<Seq<char>>,
    description_field: Option<Seq<char>>,
) -> (from: Seq<int>)
    ensures
        from.len() == listed(hits, uri_field, name_field, description_field).len(),
        forall|k: int|
            0 <= k < from.len() ==> 0 <= #[trigger] from[k] < hits.len() && described_by(
                hits[from[k]],
                uri_field,
                name_field,
                description_field,
                listed(hits, uri_field, name_field, description_field)[k],
            ),
        forall|k: int, m: int| 0 <= k < m < from.len() ==> #[trigger] from[k] < #[trigger] from[m],
        forall|i: int|
            0 <= i < hits.len() && crate::response::source_text(
                #[trigger] hits[i],
                uri_field,
            ) is Some ==> from.contains(i),
    decreases hits.len(),
{
    if hits.len() == 0 {
        Seq::empty()
    } else {
        let shorter = hits.drop_last();
        let n = hits.len() - 1;
        let before = law_listed_resources_stem_from_hits(
            shorter,
            uri_field,
            name_field,
            description_field,
        );
        let all = listed(hits, uri_field, name_field, description_field);
        let first = listed(shorter, uri_field, name_field, description_field);
        assert forall|k: int| 0 <= k < before.len() implies 0 <= #[trigger] before[k] < n
            && described_by(
            hits[before[k]],
            uri_field,
            name_field,
            description_field,
            all[k],
        ) by {
            assert(shorter[before[k]] == hits[before[k]]);
            assert(all[k] == first[k]);
        }
        let out = if crate::response::source_text(hits.last(), uri_field) is Some {
            before.push(n)
        } else {
            before
        };
        assert forall|i: int|
            0 <= i < hits.len() && crate::response::source_text(
                #[trigger] hits[i],
                uri_field,
            ) is Some implies out.contains(i) by {
            if i < n {
                assert(shorter[i] == hits[i]);
                assert(before.contains(i));
                let k = choose|k: int| 0 <= k < before.len() && before[k] == i;
                assert(out[k] == i);
            } else {
                assert(out[before.len() as int] == i);
            }
        }
        assert forall|k: int| 0 <= k < out.len() implies 0 <= #[trigger] out[k] < hits.len()
            && described_by(hits[out[k]], uri_field, name_field, description_field, all[k]) by {
            if k < before.len() {
                assert(out[k] == before[k]);
            }
        }
        assert forall|k: int, m: int| 0 <= k < m < out.len() implies #[trigger] out[k]
            < #[trigger] out[m] by {
            assert(out[k] == before[k]);
            if m < before.len() {
                assert(out[m] == before[m]);
            }
        }
        out
    }
}

/// A page lists what its hits describe. There is a next page exactly where this one is
/// full, whether or not every hit had a URI, and its cursor is where it starts.
pub proof fn law_page_lists_its_hits(
    hits: Seq<JsonView>,
    uri_field: Seq<char>,
    name_field: Option<Seq<char>>,
    description_field: Option<Seq<char>>,
    from: u64,
    page_size: u64,
)
    ensures
        ({
            let page = page_of(hits, uri_field, name_field, description_field, from, page_size);
            &&& page.resources == listed(hits, uri_field, name_field, description_field)
            &&& hits.len() < page_size ==> page.next_cursor is None
            &&& hits.len() >= page_size ==> page.next_cursor == Some(
                crate::text::decimal(from as nat + hits.len()),
            )
        }),
{
}

/// The page of a binding that lists nothing.
pub proof fn law_empty_page_lists_nothing()
    ensures
        empty_view().resources.len() == 0,
        empty_view().next_cursor is None,
{
}

/// The candidates of a completion are the texts of its hits in the completed field, in
/// the order of the hits: each hit adds its text, or nothing where it has none.
pub proof fn law_each_hit_is_a_candidate(
    before: Seq<JsonView>,
    hit: JsonView,
    behind: Seq<JsonView>,
    field: Seq<char>,
)
    ensures
        field_texts(before + seq![hit] + behind, field) == field_texts(before, field) + (
        match crate::response::source_text(hit, field) {
            Some(t) => seq![t],
            None => Seq::empty(),
        }) + field_texts(behind, field),
        field_texts(Seq::empty(), field) == Seq::<Seq<char>>::empty(),
    decreases behind.len(),
{
    let own = match crate::response::source_text(hit, field) {
        Some(t) => seq![t],
        None => Seq::empty(),
    };
    let hits = before + seq![hit] + behind;
    if behind.len() == 0 {
        assert(hits.drop_last() =~= before);
        assert(hits.last() == hit);
        assert(field_texts(hits, field) =~= field_texts(before, field) + own + field_texts(
            behind,
            field,
        ));
    } else {
        law_each_hit_is_a_candidate(before, hit, behind.drop_last(), field);
        assert(hits.drop_last() =~= before + seq![hit] + behind.drop_last());
        assert(hits.last() == behind.last());
        assert(field_texts(hits, field) =~= field_texts(before, field) + own + field_texts(
            behind,
            field,
        ));
    }
}

/// The hits that are looked at for candidates are the first ones: all of them up to the
/// limit, and no more than that.
pub proof fn law_first_hits_up_to_the_limit(hits: Seq<JsonView>, max: usize)
    ensures
        hits.len() <= max ==> first_hits(hits, max) == hits,
        hits.len() > max ==> first_hits(hits, max).len() == max,
        forall|i: int|
            0 <= i < first_hits(hits, max).len() ==> #[trigger] first_hits(hits, max)[i] == hits[i],
{
}

/// The URI of a resource is the configured one unless that is missing or blank. Then it
/// is the text that the call carries as `uri`, unless that is missing or blank too, and
/// then there is none.
pub proof fn law_configured_uri_goes_first(static_uri: Option<Seq<char>>, args: JsonView)
    ensures
        ({
            let configured = static_uri matches Some(u) && !crate::text::blank(u);
            &&& configured ==> resource_uri(static_uri, args) == static_uri
            &&& !configured ==> match args.get("uri"@) {
                Some(JsonView::Text(u)) => if crate::text::blank(u) {
                    resource_uri(static_uri, args) is None
                } else {
                    resource_uri(static_uri, args) == Some(u)
                },
                _ => resource_uri(static_uri, args) is None,
            }
        }),
{
}

/// The contents of a resource are one entry, which has the URI, the text as it is given
/// and the type of JSON, and nothing else.
pub proof fn law_contents_hold_one_entry(uri: Seq<char>, text: Seq<char>, key: Seq<char>)
    ensures
        contents_body(uri, text).get(key) is Some ==> key == "contents"@,
        contents_body(uri, text).get("contents"@) matches Some(JsonView::Array(entries))
            && entries.len() == 1 && {
            let entry = entries[0];
            &&& entry.get("uri"@) == Some(JsonView::Text(uri))
            &&& entry.get("text"@) == Some(JsonView::Text(text))
            &&& entry.get("mimeType"@) == Some(JsonView::Text("application/json"@))
            &&& entry.get(key) is Some ==> key == "uri"@ || key == "text"@ || key == "mimeType"@
        },
{
    broadcast use crate::json::lemma_get_with;

    reveal_strlit("uri");
    reveal_strlit("text");
    reveal_strlit("mimeType");
    assert("uri"@.len() == 3 && "text"@.len() == 4 && "mimeType"@.len() == 8);
}

/// The message of a prompt is one message of the user, whose content is the text as it is
/// given, and nothing else.
pub proof fn law_prompt_is_one_message_of_the_user(text: Seq<char>, key: Seq<char>)
    ensures
        messages_body(text).get(key) is Some ==> key == "messages"@,
        messages_body(text).get("messages"@) matches Some(JsonView::Array(messages))
            && messages.len() == 1 && {
            let message = messages[0];
            &&& message.get("role"@) == Some(JsonView::Text("user"@))
            &&& message.get(key) is Some ==> key == "role"@ || key == "content"@
            &&& message.get("content"@) matches Some(content)
            &&& content.get("type"@) == Some(JsonView::Text("text"@))
            &&& content.get("text"@) == Some(JsonView::Text(text))
            &&& content.get(key) is Some ==> key == "type"@ || key == "text"@
        },
{
    broadcast use crate::json::lemma_get_with;

    reveal_strlit("role");
    reveal_strlit("content");
    reveal_strlit("type");
    reveal_strlit("text");
    assert("role"@.len() == 4 && "content"@.len() == 7 && "type"@[1] == 'y' && "text"@[1] == 'e');
}

/// The names of the surfaces.
pub proof fn law_surfaces_by_name()
    ensures
        Surface::Tool.name() == "tool"@,
        Surface::Resource.name() == "resource"@,
        Surface::Prompt.name() == "prompt"@,
{
}

} // verus!
