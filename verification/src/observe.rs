//! What a call is counted and audited as.

use vstd::prelude::*;
use vstd::string::StringExecFns;

use crate::json::{Json, JsonView};
use crate::response::EsResult;
use crate::text::{decimal_text, has_text, same_text, to_ascii_lower};

verus! {

/// What a status is counted as.
pub open spec fn status_label(status: u16) -> Seq<char> {
    if 400 <= status <= 499 {
        "es_4xx"@
    } else if 500 <= status <= 599 {
        "es_5xx"@
    } else {
        "ok"@
    }
}

/// What a status is counted as.
pub fn host_outcome_label_for_status(status: u16) -> (r: &'static str)
    ensures
        r@ == status_label(status),
{
    if 400 <= status && status <= 499 {
        "es_4xx"
    } else if 500 <= status && status <= 599 {
        "es_5xx"
    } else {
        "ok"
    }
}

/// Whether the message of a failure speaks of a timeout.
pub open spec fn speaks_of_timeout(message: Seq<char>) -> bool {
    let lower = crate::text::ascii_lowered(message);
    crate::text::occurs(lower, "timed out"@) || crate::text::occurs(lower, "timeout"@)
}

/// What a failure to get an answer is counted as.
pub open spec fn failure_label(message: Seq<char>) -> Seq<char> {
    if speaks_of_timeout(message) {
        "timeout"@
    } else {
        "transport"@
    }
}

/// Whether the message of a failure speaks of a timeout.
pub fn is_timeout(message: &str) -> (r: bool)
    ensures
        r == speaks_of_timeout(message@),
{
    let lower = to_ascii_lower(message);
    has_text(lower.as_str(), "timed out") || has_text(lower.as_str(), "timeout")
}

/// What a failure to get an answer is counted as.
pub fn host_outcome_label_for_transport_error(message: &str) -> (r: &'static str)
    ensures
        r@ == failure_label(message@),
{
    if is_timeout(message) {
        "timeout"
    } else {
        "transport"
    }
}

/// The action that a label is audited as; a success or a client error is not audited.
pub open spec fn audit_action(label: Seq<char>) -> Option<Seq<char>> {
    if label == "timeout"@ {
        Some("dev.mcpg.backend.elasticsearch.request_timeout"@)
    } else if label == "transport"@ {
        Some("dev.mcpg.backend.elasticsearch.request_failed"@)
    } else if label == "es_5xx"@ {
        Some("dev.mcpg.backend.elasticsearch.upstream_5xx"@)
    } else {
        None
    }
}

/// The action that a label is audited as.
pub fn audit_action_for_outcome(label: &str) -> (r: Option<&'static str>)
    ensures
        crate::text::opt_str(r) == audit_action(label@),
{
    if same_text(label, "timeout") {
        Some("dev.mcpg.backend.elasticsearch.request_timeout")
    } else if same_text(label, "transport") {
        Some("dev.mcpg.backend.elasticsearch.request_failed")
    } else if same_text(label, "es_5xx") {
        Some("dev.mcpg.backend.elasticsearch.upstream_5xx")
    } else {
        None
    }
}

/// Whether a label is one of the five there are.
pub open spec fn known_label(label: Seq<char>) -> bool {
    ||| label == "ok"@
    ||| label == "es_4xx"@
    ||| label == "es_5xx"@
    ||| label == "timeout"@
    ||| label == "transport"@
}

/// The set of labels is closed, whatever the status and whatever the message.
pub proof fn law_labels_are_closed(status: u16, message: Seq<char>)
    ensures
        known_label(status_label(status)),
        known_label(failure_label(message)),
{
}

/// Of the outcomes with a status only server errors are audited; every failure to get
/// an answer is.
pub proof fn law_audit_follows_outcome(status: u16, message: Seq<char>)
    ensures
        audit_action(status_label(status)) is Some <==> 500 <= status <= 599,
        audit_action(failure_label(message)) is Some,
{
    reveal_strlit("ok");
    reveal_strlit("es_4xx");
    reveal_strlit("es_5xx");
    reveal_strlit("timeout");
    reveal_strlit("transport");
    assert("ok"@.len() == 2 && "timeout"@.len() == 7 && "transport"@.len() == 9);
    assert("es_4xx"@.len() == 6 && "es_5xx"@.len() == 6);
    assert("es_4xx"@[3] == '4' && "es_5xx"@[3] == '5');
}

/// What is recorded of a call.
#[derive(Debug, PartialEq, Eq)]
pub struct Observation {
    pub label: &'static str,
    pub status: Option<u16>,
    pub reason: Option<String>,
}

/// What an observation says.
pub struct ObservationView {
    pub label: Seq<char>,
    pub status: Option<u16>,
    pub reason: Option<Seq<char>>,
}

impl View for Observation {
    type V = ObservationView;

    open spec fn view(&self) -> ObservationView {
        ObservationView {
            label: self.label@,
            status: self.status,
            reason: crate::text::opt_string(self.reason),
        }
    }
}

/// What is recorded of a call that ended in one way or the other.
pub open spec fn observed(outcome: Result<u16, Seq<char>>) -> ObservationView {
    match outcome {
        Ok(status) => ObservationView {
            label: status_label(status),
            status: Some(status),
            reason: if status >= 400 {
                Some("upstream status "@ + crate::text::decimal(status as nat))
            } else {
                None
            },
        },
        Err(message) => ObservationView {
            label: failure_label(message),
            status: None,
            reason: Some(message),
        },
    }
}

/// Says what to record of a call.
pub fn observe(outcome: &Result<EsResult, String>) -> (r: Observation)
    ensures
        r@ == observed(
            match *outcome {
                Ok(res) => Ok::<u16, Seq<char>>(res.status),
                Err(m) => Err(m@),
            },
        ),
{
    match outcome {
        Ok(res) => {
            let reason = if res.status >= 400 {
                Some(
                    "upstream status ".to_owned().concat(
                        decimal_text(res.status as u128).as_str(),
                    ),
                )
            } else {
                None
            };
            Observation {
                label: host_outcome_label_for_status(res.status),
                status: Some(res.status),
                reason,
            }
        },
        Err(message) => Observation {
            label: host_outcome_label_for_transport_error(message.as_str()),
            status: None,
            reason: Some(message.clone()),
        },
    }
}

/// An audit record of a failed call, without time and actor.
#[derive(Debug, PartialEq, Eq)]
pub struct AuditRecord {
    pub event_id: String,
    pub action: &'static str,
    pub resource: String,
    pub request_id: String,
    pub details: Json,
}

/// What an audit record says.
pub struct AuditView {
    pub event_id: Seq<char>,
    pub action: Seq<char>,
    pub resource: Seq<char>,
    pub request_id: Seq<char>,
    pub details: JsonView,
}

impl View for AuditRecord {
    type V = AuditView;

    open spec fn view(&self) -> AuditView {
        AuditView {
            event_id: self.event_id@,
            action: self.action@,
            resource: self.resource@,
            request_id: self.request_id@,
            details: self.details@,
        }
    }
}

/// A call as it is audited.
pub struct CallContext<'a> {
    /// The profile that was called.
    pub backend: &'a str,
    pub request_id: &'a str,
    /// The alias of the host.
    pub alias: &'a str,
    pub duration_ms: u64,
    pub duration_nanos: u128,
}

/// A status as a number.
pub open spec fn status_number(status: Option<u16>) -> Option<JsonView> {
    match status {
        Some(s) => Some(JsonView::number(s as u64)),
        None => None,
    }
}

/// A text as a string value.
pub open spec fn text_value(text: Option<Seq<char>>) -> Option<JsonView> {
    match text {
        Some(t) => Some(JsonView::Text(t)),
        None => None,
    }
}

/// The details of an audit record.
pub open spec fn audit_details(ctx: CallContext, seen: ObservationView) -> JsonView {
    JsonView::object().with("backend"@, JsonView::Text(ctx.backend@)).with(
        "duration_ms"@,
        JsonView::number(ctx.duration_ms),
    ).with("outcome"@, JsonView::Text(seen.label)).with(
        "alias"@,
        JsonView::Text(ctx.alias@),
    ).with_some("status_code"@, status_number(seen.status)).with_some(
        "reason"@,
        text_value(seen.reason),
    )
}

/// The audit record of a call, where it is audited.
pub open spec fn audited(ctx: CallContext, seen: ObservationView) -> Option<AuditView> {
    match audit_action(seen.label) {
        None => None,
        Some(action) => Some(
            AuditView {
                event_id: "es-"@ + ctx.request_id@ + "-"@ + crate::text::decimal(
                    ctx.duration_nanos as nat,
                ),
                action,
                resource: "es-binding://"@ + ctx.backend@,
                request_id: ctx.request_id@,
                details: audit_details(ctx, seen),
            },
        ),
    }
}

/// Makes the audit record of a call, where it is audited.
pub fn audit_record(ctx: &CallContext, seen: &Observation) -> (r: Option<AuditRecord>)
    ensures
        match r {
            Some(a) => audited(*ctx, seen@) == Some(a@) && a.details@.wf(),
            None => audited(*ctx, seen@) is None,
        },
{
    let action = match audit_action_for_outcome(seen.label) {
        Some(action) => action,
        None => {
            return None;
        },
    };
    let status = match seen.status {
        Some(s) => Some(Json::number(s as u64)),
        None => None,
    };
    let reason = match &seen.reason {
        Some(t) => Some(Json::text(t.as_str())),
        None => None,
    };
    let details = Json::object().with("backend", Json::text(ctx.backend)).with(
        "duration_ms",
        Json::number(ctx.duration_ms),
    ).with("outcome", Json::text(seen.label)).with("alias", Json::text(ctx.alias)).with_some(
        "status_code",
        status,
    ).with_some("reason", reason);
    let event_id = "es-".to_owned().concat(ctx.request_id).concat("-").concat(
        decimal_text(ctx.duration_nanos).as_str(),
    );
    Some(
        AuditRecord {
            event_id,
            action,
            resource: "es-binding://".to_owned().concat(ctx.backend),
            request_id: ctx.request_id.to_owned(),
            details,
        },
    )
}

/// What is counted as what: the statuses from 400 to 499 and from 500 to 599 as errors of
/// the client and of the server, every other status as a success.
pub proof fn law_statuses_are_counted_by_their_hundreds(status: u16)
    ensures
        status / 100 == 4 ==> status_label(status) == "es_4xx"@,
        status / 100 == 5 ==> status_label(status) == "es_5xx"@,
        status / 100 != 4 && status / 100 != 5 ==> status_label(status) == "ok"@,
{
}

/// A failure is a timeout exactly where its message says so somewhere, in small letters or
/// capitals, and is counted as one. Every other failure is counted as one of transport.
pub proof fn law_timeouts_are_told_by_the_message(
    message: Seq<char>,
    before: Seq<char>,
    behind: Seq<char>,
)
    ensures
        crate::text::ascii_lowered(message) == before + "timeout"@ + behind ==> speaks_of_timeout(
            message,
        ),
        crate::text::ascii_lowered(message) == before + "timed out"@ + behind
            ==> speaks_of_timeout(message),
        speaks_of_timeout(message) ==> {
            ||| exists|a: Seq<char>, b: Seq<char>|
                crate::text::ascii_lowered(message) == #[trigger] (a + "timeout"@ + b)
            ||| exists|a: Seq<char>, b: Seq<char>|
                crate::text::ascii_lowered(message) == #[trigger] (a + "timed out"@ + b)
        },
        speaks_of_timeout(message) ==> failure_label(message) == "timeout"@,
        !speaks_of_timeout(message) ==> failure_label(message) == "transport"@,
{
    let lower = crate::text::ascii_lowered(message);
    if lower == before + "timeout"@ + behind {
        assert(lower.subrange(before.len() as int, (before.len() + "timeout"@.len()) as int)
            =~= "timeout"@);
        assert(crate::text::occurs_at(lower, "timeout"@, before.len() as int));
    }
    if lower == before + "timed out"@ + behind {
        assert(lower.subrange(before.len() as int, (before.len() + "timed out"@.len()) as int)
            =~= "timed out"@);
        assert(crate::text::occurs_at(lower, "timed out"@, before.len() as int));
    }
    if speaks_of_timeout(message) {
        if crate::text::occurs(lower, "timeout"@) {
            let at = choose|at: int| #[trigger] crate::text::occurs_at(lower, "timeout"@, at);
            let a = lower.take(at);
            let b = lower.skip(at + "timeout"@.len());
            assert(lower =~= a + "timeout"@ + b);
        } else {
            let at = choose|at: int| #[trigger] crate::text::occurs_at(lower, "timed out"@, at);
            let a = lower.take(at);
            let b = lower.skip(at + "timed out"@.len());
            assert(lower =~= a + "timed out"@ + b);
        }
    }
}

/// What a label is audited as: a timeout, a failure of transport and an error of the
/// server as an action each, and nothing else as any.
pub proof fn law_actions_of_an_audit(label: Seq<char>)
    ensures
        audit_action("timeout"@) == Some("dev.mcpg.backend.elasticsearch.request_timeout"@),
        audit_action("transport"@) == Some("dev.mcpg.backend.elasticsearch.request_failed"@),
        audit_action("es_5xx"@) == Some("dev.mcpg.backend.elasticsearch.upstream_5xx"@),
        label != "timeout"@ && label != "transport"@ && label != "es_5xx"@ ==> audit_action(
            label,
        ) is None,
{
    reveal_strlit("timeout");
    reveal_strlit("transport");
    reveal_strlit("es_5xx");
    assert("timeout"@.len() == 7 && "transport"@.len() == 9 && "es_5xx"@.len() == 6);
}

/// What is recorded of a call: of one with an answer its status, and from 400 on the
/// status as the reason too; of one without an answer the message of the failure as the
/// reason, and no status.
pub proof fn law_record_of_a_call(status: u16, message: Seq<char>)
    ensures
        ({
            let seen = observed(Ok(status));
            &&& seen.label == status_label(status)
            &&& seen.status == Some(status)
            &&& status < 400 ==> seen.reason is None
            &&& status >= 400 ==> seen.reason == Some(
                "upstream status "@ + crate::text::decimal(status as nat),
            )
        }),
        ({
            let seen = observed(Err(message));
            &&& seen.label == failure_label(message)
            &&& seen.status is None
            &&& seen.reason == Some(message)
        }),
{
}

/// The keys of the details of an audit differ.
proof fn lemma_detail_keys()
    ensures
        "backend"@.len() == 7 && "duration_ms"@.len() == 11 && "duration_ms"@[0] == 'd',
        "outcome"@.len() == 7 && "backend"@[0] == 'b' && "outcome"@[0] == 'o',
        "alias"@.len() == 5 && "status_code"@.len() == 11 && "status_code"@[0] == 's',
        "reason"@.len() == 6,
{
    reveal_strlit("backend");
    reveal_strlit("duration_ms");
    reveal_strlit("outcome");
    reveal_strlit("alias");
    reveal_strlit("status_code");
    reveal_strlit("reason");
}

/// An audit record is there exactly where the label is audited. It names the profile and
/// the request, and its details hold the profile, the duration, the label and the alias,
/// and the status and the reason as far as they were recorded.
pub proof fn law_audit_tells_the_call(ctx: CallContext, seen: ObservationView, key: Seq<char>)
    ensures
        audit_action(seen.label) is None <==> audited(ctx, seen) is None,
        audited(ctx, seen) matches Some(a) ==> {
            &&& audit_action(seen.label) == Some(a.action)
            &&& a.event_id == "es-"@ + ctx.request_id@ + "-"@ + crate::text::decimal(
                ctx.duration_nanos as nat,
            )
            &&& a.resource == "es-binding://"@ + ctx.backend@
            &&& a.request_id == ctx.request_id@
            &&& a.details.get("backend"@) == Some(JsonView::Text(ctx.backend@))
            &&& a.details.get("duration_ms"@) == Some(JsonView::number(ctx.duration_ms))
            &&& a.details.get("outcome"@) == Some(JsonView::Text(seen.label))
            &&& a.details.get("alias"@) == Some(JsonView::Text(ctx.alias@))
            &&& seen.status is None ==> a.details.get("status_code"@) is None
            &&& seen.status matches Some(s) ==> a.details.get("status_code"@) == Some(
                JsonView::number(s as u64),
            )
            &&& seen.reason is None ==> a.details.get("reason"@) is None
            &&& seen.reason matches Some(r) ==> a.details.get("reason"@) == Some(JsonView::Text(r))
            &&& a.details.get(key) is Some ==> key == "backend"@ || key == "duration_ms"@ || key
                == "outcome"@ || key == "alias"@ || key == "status_code"@ || key == "reason"@
        },
{
    broadcast use crate::json::lemma_get_with;

    lemma_detail_keys();
}

} // verus!
