//! Sending a call: credentials, the guard on the host, and failover.
//!
//! Nothing here touches the network. The functions say what to send and where,
//! and what to make of what happened.

use vstd::prelude::*;
use vstd::string::StringExecFns;
use vstd::utf8::encode_utf8;

use crate::call::EsRestCall;
use crate::config::{ElasticsearchBackendSpec, EsAuth};
use crate::encode::b64;
use crate::response::{shape_response, EsResult, ResultView};
use crate::text::decimal_text;

verus! {

/// The value of the authorization header.
pub open spec fn authorization(auth: EsAuth) -> Option<Seq<char>> {
    match auth {
        EsAuth::Anonymous => None,
        EsAuth::ApiKey { api_key } => Some("ApiKey "@ + api_key@),
        EsAuth::Basic { username, password } => Some(
            "Basic "@ + crate::encode::b64_encoded(
                encode_utf8(username@ + ":"@ + password@),
            ),
        ),
        EsAuth::Bearer { token } => Some("Bearer "@ + token@),
    }
}

/// The header that carries the credentials, name and value.
pub fn auth_header(spec: &ElasticsearchBackendSpec) -> (r: Option<(&'static str, String)>)
    ensures
        match r {
            Some(h) => h.0@ == "Authorization"@ && authorization(spec.auth) == Some(h.1@),
            None => authorization(spec.auth) is None,
        },
{
    match &spec.auth {
        EsAuth::Anonymous => None,
        EsAuth::ApiKey { api_key } => Some(
            ("Authorization", "ApiKey ".to_owned().concat(api_key.as_str())),
        ),
        EsAuth::Basic { username, password } => {
            let pair = username.clone().concat(":").concat(password.as_str());
            let token = b64(pair.as_str().as_bytes());
            Some(("Authorization", "Basic ".to_owned().concat(token.as_str())))
        },
        EsAuth::Bearer { token } => Some(
            ("Authorization", "Bearer ".to_owned().concat(token.as_str())),
        ),
    }
}

/// The URL of a call below a base URL.
pub open spec fn full_url(base: Seq<char>, call: crate::call::CallView) -> Seq<char> {
    match call.query {
        Some(q) => base + call.path + "?"@ + q,
        None => base + call.path,
    }
}

/// The URL of a call below a base URL.
pub fn request_url(base: &str, call: &EsRestCall) -> (r: String)
    ensures
        r@ == full_url(base@, call@),
{
    let full = base.to_owned().concat(call.path.as_str());
    match &call.query {
        Some(q) => full.concat("?").concat(q.as_str()),
        None => full,
    }
}

/// What came of one attempt to send a call.
#[derive(Debug, PartialEq, Eq)]
pub enum Event {
    /// The host was refused, the request could not be sent, or the body of the
    /// response was lost.
    Failed(String),
    /// The server answered.
    Answered { status: u16, body: Vec<u8> },
}

/// What an event says.
pub enum EventView {
    Failed(Seq<char>),
    Answered { status: u16, body: Seq<u8> },
}

impl View for Event {
    type V = EventView;

    open spec fn view(&self) -> EventView {
        match self {
            Event::Failed(m) => EventView::Failed(m@),
            Event::Answered { status, body } => EventView::Answered { status: *status, body: body@ },
        }
    }
}

/// What to do next.
#[derive(Debug, PartialEq, Eq)]
pub enum Action {
    /// Try the base URL with this number.
    Attempt(usize),
    /// This is how the call ended.
    Done(Result<EsResult, String>),
}

/// What an action says.
pub enum ActionView {
    Attempt(int),
    Done(Result<ResultView, Seq<char>>),
}

impl View for Action {
    type V = ActionView;

    open spec fn view(&self) -> ActionView {
        match self {
            Action::Attempt(i) => ActionView::Attempt(*i as int),
            Action::Done(r) => ActionView::Done(outcome(*r)),
        }
    }
}

/// How a call ended.
pub open spec fn outcome(r: Result<EsResult, String>) -> Result<ResultView, Seq<char>> {
    match r {
        Ok(res) => Ok(res@),
        Err(m) => Err(m@),
    }
}

/// The first thing to do with so many base URLs.
pub open spec fn opening(urls: int) -> ActionView {
    if urls > 0 {
        ActionView::Attempt(0)
    } else {
        ActionView::Done(Err("no reachable elasticsearch URL"@))
    }
}

/// What to do once the base URL with number `current` was tried.
pub open spec fn reaction(urls: int, current: int, event: EventView, cap: usize) -> ActionView {
    match event {
        EventView::Answered { status, body } => ActionView::Done(
            Ok(crate::response::shaped(status, body, cap)),
        ),
        EventView::Failed(m) => if current + 1 < urls {
            ActionView::Attempt(current + 1)
        } else {
            ActionView::Done(Err(m))
        },
    }
}

/// Says what to do first with so many base URLs.
pub fn first_action(urls: usize) -> (r: Action)
    ensures
        r@ == opening(urls as int),
{
    if urls > 0 {
        Action::Attempt(0)
    } else {
        Action::Done(Err("no reachable elasticsearch URL".to_owned()))
    }
}

/// Says what to do once the base URL with number `current` was tried: an answer ends
/// the call, whatever its status, and a failure moves on to the next base URL.
pub fn next_action(urls: usize, current: usize, event: Event, cap: usize) -> (r: Action)
    requires
        current < urls,
    ensures
        r@ == reaction(urls as int, current as int, event@, cap),
        r matches Action::Done(Ok(res)) ==> res@.wf(),
{
    match event {
        Event::Answered { status, body } => Action::Done(
            Ok(shape_response(status, body.as_slice(), cap)),
        ),
        Event::Failed(m) => {
            if current + 1 < urls {
                Action::Attempt(current + 1)
            } else {
                Action::Done(Err(m))
            }
        },
    }
}

/// What there is to do after a run of events.
pub open spec fn after(urls: int, events: Seq<EventView>, cap: usize) -> ActionView
    decreases events.len(),
{
    if events.len() == 0 {
        opening(urls)
    } else {
        match after(urls, events.drop_last(), cap) {
            ActionView::Attempt(i) => reaction(urls, i, events.last(), cap),
            done => done,
        }
    }
}

/// The base URLs are tried in their order, each once, until one answers. Where none
/// does, the last failure is reported.
pub proof fn law_failover_tries_each_url_once(urls: int, events: Seq<EventView>, cap: usize)
    requires
        0 < urls,
        events.len() <= urls,
        forall|i: int| 0 <= i < events.len() ==> (#[trigger] events[i]) is Failed,
    ensures
        events.len() < urls ==> after(urls, events, cap) == ActionView::Attempt(
            events.len() as int,
        ),
        events.len() == urls ==> after(urls, events, cap) == ActionView::Done(
            Err(events.last()->Failed_0),
        ),
    decreases events.len(),
{
    if events.len() > 0 {
        let before = events.drop_last();
        assert forall|i: int| 0 <= i < before.len() implies (#[trigger] before[i]) is Failed by {
            assert(events[i] is Failed);
        }
        law_failover_tries_each_url_once(urls, before, cap);
        assert(events[events.len() - 1] is Failed);
    }
}

/// The first answer ends the call, whatever its status.
pub proof fn law_first_answer_wins(
    urls: int,
    failures: Seq<EventView>,
    status: u16,
    body: Seq<u8>,
    cap: usize,
)
    requires
        failures.len() < urls,
        forall|i: int| 0 <= i < failures.len() ==> (#[trigger] failures[i]) is Failed,
    ensures
        after(urls, failures.push(EventView::Answered { status, body }), cap) == ActionView::Done(
            Ok(crate::response::shaped(status, body, cap)),
        ),
{
    law_failover_tries_each_url_once(urls, failures, cap);
    let events = failures.push(EventView::Answered { status, body });
    assert(events.drop_last() =~= failures);
}

/// The message for a response whose body could not be read.
pub fn body_read_failure(error: &str) -> (r: String)
    ensures
        r@ == "response body read failed: "@ + error@,
{
    "response body read failed: ".to_owned().concat(error)
}

/// What a base URL names: host and port, as far as it has them.
#[derive(Debug, Clone, PartialEq, Eq)]
pub struct Endpoint {
    pub host: Option<String>,
    pub port: Option<u16>,
}

/// Name for what a text names as a URL: its host, and its port or the known default of
/// its scheme. Nothing where the text is no URL.
pub uninterp spec fn url_endpoint(text: Seq<char>) -> Option<(Option<Seq<char>>, Option<u16>)>;

/// Reads host and port off a base URL; nothing where it does not parse.
///
/// Trusted: `url::Url::parse` gives the URL that the text denotes or an error, and
/// `host_str` and `port_or_known_default` read its host and port. All of it is settled
/// by the text alone.
#[verifier::external_body]
pub(crate) fn endpoint_of(base: &str) -> (r: Option<Endpoint>)
    ensures
        endpoint_view(r) == url_endpoint(base@),
{
    let url = url::Url::parse(base).ok()?;
    Some(Endpoint { host: url.host_str().map(str::to_owned), port: url.port_or_known_default() })
}

/// The address to look up for an endpoint, or why there is none.
pub open spec fn lookup(endpoint: Option<(Option<Seq<char>>, Option<u16>)>) -> Result<
    (Seq<char>, u16),
    Seq<char>,
> {
    match endpoint {
        None => Err("base URL failed to parse"@),
        Some((None, _)) => Err("base URL has no host"@),
        Some((Some(_), None)) => Err("base URL has no port"@),
        Some((Some(host), Some(port))) => Ok((host, port)),
    }
}

/// What an endpoint says.
pub open spec fn endpoint_view(e: Option<Endpoint>) -> Option<(Option<Seq<char>>, Option<u16>)> {
    match e {
        Some(e) => Some((crate::text::opt_string(e.host), e.port)),
        None => None,
    }
}

/// Picks the address to look up for an endpoint.
pub fn lookup_target(endpoint: Option<Endpoint>) -> (r: Result<(String, u16), String>)
    ensures
        match r {
            Ok(t) => lookup(endpoint_view(endpoint)) == Ok::<(Seq<char>, u16), Seq<char>>(
                (t.0@, t.1),
            ),
            Err(m) => lookup(endpoint_view(endpoint)) == Err::<(Seq<char>, u16), Seq<char>>(m@),
        },
{
    match endpoint {
        None => Err("base URL failed to parse".to_owned()),
        Some(e) => match e.host {
            None => Err("base URL has no host".to_owned()),
            Some(host) => match e.port {
                None => Err("base URL has no port".to_owned()),
                Some(port) => Ok((host, port)),
            },
        },
    }
}

/// Says what to look up before a base URL is called: nothing where private hosts are
/// allowed, else its host and port.
pub fn guard_plan(base: &str, allow_private: bool) -> (r: Result<Option<(String, u16)>, String>)
    ensures
        allow_private ==> r == Ok::<Option<(String, u16)>, String>(None),
        !allow_private ==> (match r {
            Ok(Some(t)) => lookup(url_endpoint(base@)) == Ok::<(Seq<char>, u16), Seq<char>>(
                (t.0@, t.1),
            ),
            Ok(None) => false,
            Err(m) => lookup(url_endpoint(base@)) == Err::<(Seq<char>, u16), Seq<char>>(m@),
        }),
{
    if allow_private {
        return Ok(None);
    }
    match lookup_target(endpoint_of(base)) {
        Ok(t) => Ok(Some(t)),
        Err(m) => Err(m),
    }
}

/// The text that a host and a port are looked up by.
pub fn lookup_name(host: &str, port: u16) -> (r: String)
    ensures
        r@ == host@ + ":"@ + crate::text::decimal(port as nat),
{
    host.to_owned().concat(":").concat(decimal_text(port as u128).as_str())
}

/// Why a host is refused: its lookup failed, found nothing, or found private
/// addresses alone. Each address is given by whether it is private.
pub open spec fn host_refusal(
    host: Seq<char>,
    addresses: Result<Seq<bool>, Seq<char>>,
) -> Option<Seq<char>> {
    match addresses {
        Err(m) => Some("DNS resolution failed for "@ + host + ": "@ + m),
        Ok(private) => if private.len() == 0 {
            Some("DNS resolution returned no addresses for "@ + host)
        } else if forall|i: int| 0 <= i < private.len() ==> #[trigger] private[i] {
            Some(
                "DNS rebinding guard: host '"@ + host + "' resolved only to private addresses"@,
            )
        } else {
            None
        },
    }
}

/// The addresses of a lookup.
pub open spec fn addresses_view(r: Result<Vec<bool>, String>) -> Result<Seq<bool>, Seq<char>> {
    match r {
        Ok(v) => Ok(v@),
        Err(m) => Err(m@),
    }
}

/// Judges a host by what its lookup found.
pub fn guard_verdict(host: &str, addresses: Result<Vec<bool>, String>) -> (r: Result<(), String>)
    ensures
        crate::text::refusal(r) == host_refusal(host@, addresses_view(addresses)),
{
    let private = match addresses {
        Err(m) => {
            return Err(
                "DNS resolution failed for ".to_owned().concat(host).concat(": ").concat(
                    m.as_str(),
                ),
            );
        },
        Ok(v) => v,
    };
    if private.is_empty() {
        return Err("DNS resolution returned no addresses for ".to_owned().concat(host));
    }
    let mut i: usize = 0;
    while i < private.len()
        invariant
            i <= private@.len(),
            private@.len() > 0,
            addresses_view(addresses) == Ok::<Seq<bool>, Seq<char>>(private@),
            forall|j: int| 0 <= j < i ==> #[trigger] private@[j],
        decreases private@.len() - i,
    {
        if !private[i] {
            assert(!private@[i as int]);
            return Ok(());
        }
        i += 1;
    }
    Err(
        "DNS rebinding guard: host '".to_owned().concat(host).concat(
            "' resolved only to private addresses",
        ),
    )
}

/// A host that passes the guard has an address that is not private.
pub proof fn law_guarded_host_has_public_address(
    host: Seq<char>,
    addresses: Result<Seq<bool>, Seq<char>>,
)
    ensures
        host_refusal(host, addresses) is None <==> (addresses matches Ok(private) && exists|i: int|
            0 <= i < private.len() && !#[trigger] private[i]),
{
}

/// What the credentials of a call come to on the wire: nothing without credentials, an
/// API key and a bearer token as they are behind their scheme, and a user name and a
/// password, with a colon between them, in base64 behind theirs.
pub proof fn law_credentials_on_the_wire(auth: EsAuth)
    ensures
        auth is Anonymous ==> authorization(auth) is None,
        auth matches EsAuth::ApiKey { api_key } ==> authorization(auth) == Some(
            "ApiKey "@ + api_key@,
        ),
        auth matches EsAuth::Bearer { token } ==> authorization(auth) == Some("Bearer "@ + token@),
        auth matches EsAuth::Basic { username, password } ==> authorization(auth) matches Some(h)
            && {
            let coded = h.skip("Basic "@.len() as int);
            &&& crate::text::starts_with(h, "Basic "@)
            &&& coded == crate::encode::b64_encoded(encode_utf8(username@ + ":"@ + password@))
            &&& crate::encode::b64_decoded(coded) == encode_utf8(username@ + ":"@ + password@)
        },
{
    if let EsAuth::Basic { username, password } = auth {
        let bytes = encode_utf8(username@ + ":"@ + password@);
        let h = "Basic "@ + crate::encode::b64_encoded(bytes);
        crate::encode::law_base64_reads_back(bytes);
        assert(h.subrange(0, "Basic "@.len() as int) =~= "Basic "@);
        assert(h.skip("Basic "@.len() as int) =~= crate::encode::b64_encoded(bytes));
    }
}

/// The URL of a call is the base URL, the path of the call, and its query string behind
/// a question mark where it has one.
pub proof fn law_url_is_base_path_and_query(base: Seq<char>, call: crate::call::CallView)
    ensures
        call.query is None ==> full_url(base, call) == base + call.path,
        call.query matches Some(q) ==> full_url(base, call) == base + call.path + "?"@ + q,
{
}

/// With base URLs the first one is tried first; without any the call ends at once. Once
/// the call has ended nothing changes how.
pub proof fn law_call_begins_and_stays_ended(
    urls: int,
    events: Seq<EventView>,
    event: EventView,
    cap: usize,
)
    ensures
        urls > 0 ==> after(urls, Seq::empty(), cap) == ActionView::Attempt(0),
        urls <= 0 ==> after(urls, Seq::empty(), cap) == ActionView::Done(
            Err("no reachable elasticsearch URL"@),
        ),
        after(urls, events, cap) is Done ==> after(urls, events.push(event), cap) == after(
            urls,
            events,
            cap,
        ),
{
    assert(events.push(event).drop_last() =~= events);
}

/// An answer ends the call with what the server sent. A failure leads to the next base
/// URL in the order, and behind the last one it is what the call ends with.
pub proof fn law_answers_end_and_failures_move_on(
    urls: int,
    current: int,
    status: u16,
    body: Seq<u8>,
    message: Seq<char>,
    cap: usize,
)
    ensures
        reaction(urls, current, EventView::Answered { status, body }, cap) == ActionView::Done(
            Ok(crate::response::shaped(status, body, cap)),
        ),
        current + 1 < urls ==> reaction(urls, current, EventView::Failed(message), cap)
            == ActionView::Attempt(current + 1),
        current + 1 >= urls ==> reaction(urls, current, EventView::Failed(message), cap)
            == ActionView::Done(Err(message)),
{
}

/// A host is looked up exactly where a base URL parses and names both a host and a port,
/// and it is that host and that port. Otherwise it is said what is missing.
pub proof fn law_lookup_wants_host_and_port(host: Seq<char>, port: u16, p: Option<u16>)
    ensures
        lookup(Some((Some(host), Some(port)))) == Ok::<(Seq<char>, u16), Seq<char>>((host, port)),
        lookup(Some((Some(host), None))) == Err::<(Seq<char>, u16), Seq<char>>(
            "base URL has no port"@,
        ),
        lookup(Some((None, p))) == Err::<(Seq<char>, u16), Seq<char>>("base URL has no host"@),
        lookup(None) == Err::<(Seq<char>, u16), Seq<char>>("base URL failed to parse"@),
{
}

/// A host that is refused is told why: that its lookup failed and how, that it found no
/// address, or that it found private ones alone.
pub proof fn law_refused_host_is_explained(
    host: Seq<char>,
    addresses: Result<Seq<bool>, Seq<char>>,
)
    ensures
        addresses matches Err(m) ==> host_refusal(host, addresses) == Some(
            "DNS resolution failed for "@ + host + ": "@ + m,
        ),
        addresses matches Ok(private) ==> {
            &&& private.len() == 0 ==> host_refusal(host, addresses) == Some(
                "DNS resolution returned no addresses for "@ + host,
            )
            &&& private.len() > 0 && !private.contains(false) ==> host_refusal(host, addresses)
                == Some(
                "DNS rebinding guard: host '"@ + host + "' resolved only to private addresses"@,
            )
            &&& private.contains(false) ==> host_refusal(host, addresses) is None
        },
{
    if let Ok(private) = addresses {
        if !private.contains(false) {
            assert forall|i: int| 0 <= i < private.len() implies #[trigger] private[i] by {
                assert(private.contains(private[i]));
            }
        }
    }
}

} // verus!
