//! Descriptions of a configuration for logs. No secret is in them.

use vstd::prelude::*;
use vstd::string::StringExecFns;

use crate::config::{ElasticsearchBackendSpec, EsAuth, EsOperation, EsTlsConfig};
use crate::text::{decimal_text, join};

verus! {

/// Name for a text in quotes, escaped as for a Rust literal.
pub uninterp spec fn quoted(s: Seq<char>) -> Seq<char>;

/// A text in quotes.
///
/// Trusted: the `Debug` form of a `str` is settled by its characters.
#[verifier::external_body]
fn quote(s: &str) -> (r: String)
    ensures
        r@ == quoted(s@),
{
    format!("{s:?}")
}

/// An optional text.
pub open spec fn quoted_option(o: Option<Seq<char>>) -> Seq<char> {
    match o {
        Some(s) => "Some("@ + quoted(s) + ")"@,
        None => "None"@,
    }
}

fn quote_option(o: &Option<String>) -> (r: String)
    ensures
        r@ == quoted_option(crate::text::opt_string(*o)),
{
    match o {
        Some(s) => "Some(".to_owned().concat(quote(s.as_str()).as_str()).concat(")"),
        None => "None".to_owned(),
    }
}

/// A list of texts.
pub open spec fn quoted_list(items: Seq<Seq<char>>) -> Seq<char> {
    "["@ + crate::text::joined(items.map_values(|s: Seq<char>| quoted(s)), ", "@) + "]"@
}

fn quote_list(items: &Vec<String>) -> (r: String)
    ensures
        r@ == quoted_list(crate::text::strings(items@)),
{
    let ghost all = crate::text::strings(items@).map_values(|s: Seq<char>| quoted(s));
    let mut out: Vec<String> = Vec::new();
    let mut i: usize = 0;
    assert(crate::text::strings(out@) =~= all.take(0));
    while i < items.len()
        invariant
            i <= items@.len(),
            all == crate::text::strings(items@).map_values(|s: Seq<char>| quoted(s)),
            crate::text::strings(out@) == all.take(i as int),
        decreases items@.len() - i,
    {
        let q = quote(items[i].as_str());
        proof {
            crate::text::lemma_strings_push(out@, q);
            assert(all.take(i + 1) =~= all.take(i as int).push(q@));
        }
        out.push(q);
        i += 1;
    }
    assert(all.take(i as int) =~= all);
    "[".to_owned().concat(join(&out, ", ").as_str()).concat("]")
}

/// The name of a truth value.
fn bool_text(b: bool) -> (r: &'static str)
    ensures
        r@ == crate::call::bool_name(b),
{
    if b {
        "true"
    } else {
        "false"
    }
}

impl EsAuth {
    /// The credentials without their secret.
    pub open spec fn debug_view(self) -> Seq<char> {
        match self {
            EsAuth::Anonymous => "None"@,
            EsAuth::ApiKey { api_key } => "ApiKey { api_key: \"***\" }"@,
            EsAuth::Basic { username, password } => "Basic { username: "@ + quoted(username@)
                + ", password: \"***\" }"@,
            EsAuth::Bearer { token } => "Bearer { token: \"***\" }"@,
        }
    }

    /// Describes the credentials without their secret.
    pub fn debug_text(&self) -> (r: String)
        ensures
            r@ == self.debug_view(),
    {
        match self {
            EsAuth::Anonymous => "None".to_owned(),
            EsAuth::ApiKey { .. } => "ApiKey { api_key: \"***\" }".to_owned(),
            EsAuth::Basic { username, .. } => "Basic { username: ".to_owned().concat(
                quote(username.as_str()).as_str(),
            ).concat(", password: \"***\" }"),
            EsAuth::Bearer { .. } => "Bearer { token: \"***\" }".to_owned(),
        }
    }
}

impl EsTlsConfig {
    /// The TLS settings without the certificates.
    pub open spec fn debug_view(self) -> Seq<char> {
        "EsTlsConfig { ca_cert_pem: "@ + (if self.ca_cert_pem is Some {
            "Some(\"<pem>\")"@
        } else {
            "None"@
        }) + ", insecure_skip_verify: "@ + crate::call::bool_name(self.insecure_skip_verify) + " }"@
    }

    /// Describes the TLS settings without the certificates.
    pub fn debug_text(&self) -> (r: String)
        ensures
            r@ == self.debug_view(),
    {
        let pem = if self.ca_cert_pem.is_some() {
            "Some(\"<pem>\")"
        } else {
            "None"
        };
        "EsTlsConfig { ca_cert_pem: ".to_owned().concat(pem).concat(
            ", insecure_skip_verify: ",
        ).concat(bool_text(self.insecure_skip_verify)).concat(" }")
    }
}

impl EsOperation {
    /// The operation as it is written in code.
    pub open spec fn variant(self) -> Seq<char> {
        match self {
            EsOperation::Search => "Search"@,
            EsOperation::Count => "Count"@,
            EsOperation::Get => "Get"@,
            EsOperation::Index => "Index"@,
            EsOperation::Delete => "Delete"@,
            EsOperation::Bulk => "Bulk"@,
            EsOperation::Msearch => "Msearch"@,
            EsOperation::Knn => "Knn"@,
        }
    }
}

fn variant_text(op: EsOperation) -> (r: &'static str)
    ensures
        r@ == op.variant(),
{
    match op {
        EsOperation::Search => "Search",
        EsOperation::Count => "Count",
        EsOperation::Get => "Get",
        EsOperation::Index => "Index",
        EsOperation::Delete => "Delete",
        EsOperation::Bulk => "Bulk",
        EsOperation::Msearch => "Msearch",
        EsOperation::Knn => "Knn",
    }
}

impl ElasticsearchBackendSpec {
    /// The configuration without its secrets. The vector search is given as text.
    pub open spec fn debug_view(self, knn: Seq<char>) -> Seq<char> {
        "ElasticsearchBackendSpec { urls: "@ + quoted_list(crate::text::strings(self.urls@))
            + ", operation: "@ + self.operation.variant() + ", default_index: "@ + quoted_option(
            crate::text::opt_string(self.default_index),
        ) + ", index_allowlist: "@ + quoted_list(crate::text::strings(self.index_allowlist@))
            + ", allow_any_index: "@ + crate::call::bool_name(self.allow_any_index)
            + ", allow_writes: "@ + crate::call::bool_name(self.allow_writes)
            + ", allow_scripting: "@ + crate::call::bool_name(self.allow_scripting) + ", auth: "@
            + self.auth.debug_view() + ", tls: "@ + self.tls.debug_view()
            + ", connect_timeout_ms: "@ + crate::text::decimal(self.connect_timeout_ms as nat)
            + ", operation_timeout_ms: "@ + crate::text::decimal(self.operation_timeout_ms as nat)
            + ", max_response_bytes: "@ + crate::text::decimal(self.max_response_bytes as nat)
            + ", max_request_bytes: "@ + crate::text::decimal(self.max_request_bytes as nat)
            + ", max_size: "@ + crate::text::decimal(self.max_size as nat) + ", max_from: "@
            + crate::text::decimal(self.max_from as nat) + ", allow_private_backends: "@
            + crate::call::bool_name(self.allow_private_backends) + ", knn: "@ + knn + " }"@
    }

    /// Describes the configuration without its secrets. The vector search is given as
    /// text.
    pub fn debug_text(&self, knn: &str) -> (r: String)
        ensures
            r@ == self.debug_view(knn@),
    {
        "ElasticsearchBackendSpec { urls: ".to_owned().concat(quote_list(&self.urls).as_str()).concat(
            ", operation: ",
        ).concat(variant_text(self.operation)).concat(", default_index: ").concat(
            quote_option(&self.default_index).as_str(),
        ).concat(", index_allowlist: ").concat(quote_list(&self.index_allowlist).as_str()).concat(
            ", allow_any_index: ",
        ).concat(bool_text(self.allow_any_index)).concat(", allow_writes: ").concat(
            bool_text(self.allow_writes),
        ).concat(", allow_scripting: ").concat(bool_text(self.allow_scripting)).concat(
            ", auth: ",
        ).concat(self.auth.debug_text().as_str()).concat(", tls: ").concat(
            self.tls.debug_text().as_str(),
        ).concat(", connect_timeout_ms: ").concat(
            decimal_text(self.connect_timeout_ms as u128).as_str(),
        ).concat(", operation_timeout_ms: ").concat(
            decimal_text(self.operation_timeout_ms as u128).as_str(),
        ).concat(", max_response_bytes: ").concat(
            decimal_text(self.max_response_bytes as u128).as_str(),
        ).concat(", max_request_bytes: ").concat(
            decimal_text(self.max_request_bytes as u128).as_str(),
        ).concat(", max_size: ").concat(decimal_text(self.max_size as u128).as_str()).concat(
            ", max_from: ",
        ).concat(decimal_text(self.max_from as u128).as_str()).concat(
            ", allow_private_backends: ",
        ).concat(bool_text(self.allow_private_backends)).concat(", knn: ").concat(knn).concat(" }")
    }
}

/// Two credentials of one kind that differ in their secrets alone.
pub open spec fn same_but_secret(a: EsAuth, b: EsAuth) -> bool {
    match (a, b) {
        (EsAuth::Anonymous, EsAuth::Anonymous) => true,
        (EsAuth::ApiKey { .. }, EsAuth::ApiKey { .. }) => true,
        (EsAuth::Bearer { .. }, EsAuth::Bearer { .. }) => true,
        (EsAuth::Basic { username: u, .. }, EsAuth::Basic { username: v, .. }) => u@ == v@,
        _ => false,
    }
}

/// A description does not depend on a secret, nor on the certificates.
pub proof fn law_description_hides_secrets(
    a: ElasticsearchBackendSpec,
    auth: EsAuth,
    pem: Option<String>,
    knn: Seq<char>,
)
    requires
        same_but_secret(a.auth, auth),
        pem is Some <==> a.tls.ca_cert_pem is Some,
    ensures
        a.auth.debug_view() == auth.debug_view(),
        a.debug_view(knn) == (ElasticsearchBackendSpec {
            auth,
            tls: EsTlsConfig {
                ca_cert_pem: pem,
                insecure_skip_verify: a.tls.insecure_skip_verify,
            },
            ..a
        }).debug_view(knn),
{
}

/// What a text holds it still holds with another behind it.
proof fn lemma_still_occurs(s: Seq<char>, more: Seq<char>)
    ensures
        forall|p: Seq<char>| #[trigger]
            crate::text::occurs(s, p) ==> crate::text::occurs(s + more, p),
{
    assert forall|p: Seq<char>| #[trigger] crate::text::occurs(s, p) implies crate::text::occurs(
        s + more,
        p,
    ) by {
        let at = choose|at: int| #[trigger] crate::text::occurs_at(s, p, at);
        assert((s + more).subrange(at, at + p.len()) =~= s.subrange(at, at + p.len()));
        assert(crate::text::occurs_at(s + more, p, at));
    }
}

/// A label and a value behind a text stand in it together, and what the text held it still
/// holds.
proof fn lemma_told(s: Seq<char>, label: Seq<char>, value: Seq<char>)
    ensures
        crate::text::occurs(s + label + value, label + value),
        forall|p: Seq<char>| #[trigger]
            crate::text::occurs(s, p) ==> crate::text::occurs(s + label + value, p),
{
    let pair = label + value;
    let all = s + label + value;
    assert(all =~= s + pair);
    assert(all.subrange(s.len() as int, s.len() as int + pair.len()) =~= pair);
    assert(crate::text::occurs_at(all, pair, s.len() as int));
    lemma_still_occurs(s, pair);
}

/// A description tells every setting that is no secret by its name.
pub proof fn law_description_tells_the_settings(spec: ElasticsearchBackendSpec, knn: Seq<char>)
    ensures
        ({
            let d = spec.debug_view(knn);
            let yes = |b: bool| if b {
                "true"@
            } else {
                "false"@
            };
            &&& crate::text::occurs(
                d,
                "ElasticsearchBackendSpec { urls: "@ + quoted_list(
                    crate::text::strings(spec.urls@),
                ),
            )
            &&& crate::text::occurs(d, ", operation: "@ + spec.operation.variant())
            &&& crate::text::occurs(
                d,
                ", default_index: "@ + quoted_option(crate::text::opt_string(spec.default_index)),
            )
            &&& crate::text::occurs(
                d,
                ", index_allowlist: "@ + quoted_list(crate::text::strings(spec.index_allowlist@)),
            )
            &&& crate::text::occurs(d, ", allow_any_index: "@ + yes(spec.allow_any_index))
            &&& crate::text::occurs(d, ", allow_writes: "@ + yes(spec.allow_writes))
            &&& crate::text::occurs(d, ", allow_scripting: "@ + yes(spec.allow_scripting))
            &&& crate::text::occurs(d, ", auth: "@ + spec.auth.debug_view())
            &&& crate::text::occurs(d, ", tls: "@ + spec.tls.debug_view())
            &&& crate::text::occurs(
                d,
                ", connect_timeout_ms: "@ + crate::text::decimal(spec.connect_timeout_ms as nat),
            )
            &&& crate::text::occurs(
                d,
                ", operation_timeout_ms: "@ + crate::text::decimal(
                    spec.operation_timeout_ms as nat,
                ),
            )
            &&& crate::text::occurs(
                d,
                ", max_response_bytes: "@ + crate::text::decimal(spec.max_response_bytes as nat),
            )
            &&& crate::text::occurs(
                d,
                ", max_request_bytes: "@ + crate::text::decimal(spec.max_request_bytes as nat),
            )
            &&& crate::text::occurs(
                d,
                ", max_size: "@ + crate::text::decimal(spec.max_size as nat),
            )
            &&& crate::text::occurs(
                d,
                ", max_from: "@ + crate::text::decimal(spec.max_from as nat),
            )
            &&& crate::text::occurs(
                d,
                ", allow_private_backends: "@ + yes(spec.allow_private_backends),
            )
            &&& crate::text::occurs(d, ", knn: "@ + knn)
        }),
{
    let s0 = Seq::<char>::empty();
    let urls = quoted_list(crate::text::strings(spec.urls@));
    let s1 = "ElasticsearchBackendSpec { urls: "@ + urls;
    lemma_told(s0, "ElasticsearchBackendSpec { urls: "@, urls);
    assert(s0 + "ElasticsearchBackendSpec { urls: "@ + urls =~= s1);
    let operation = spec.operation.variant();
    let s2 = s1 + ", operation: "@ + operation;
    lemma_told(s1, ", operation: "@, operation);
    let index = quoted_option(crate::text::opt_string(spec.default_index));
    let s3 = s2 + ", default_index: "@ + index;
    lemma_told(s2, ", default_index: "@, index);
    let allowlist = quoted_list(crate::text::strings(spec.index_allowlist@));
    let s4 = s3 + ", index_allowlist: "@ + allowlist;
    lemma_told(s3, ", index_allowlist: "@, allowlist);
    let any = crate::call::bool_name(spec.allow_any_index);
    let s5 = s4 + ", allow_any_index: "@ + any;
    lemma_told(s4, ", allow_any_index: "@, any);
    let writes = crate::call::bool_name(spec.allow_writes);
    let s6 = s5 + ", allow_writes: "@ + writes;
    lemma_told(s5, ", allow_writes: "@, writes);
    let scripting = crate::call::bool_name(spec.allow_scripting);
    let s7 = s6 + ", allow_scripting: "@ + scripting;
    lemma_told(s6, ", allow_scripting: "@, scripting);
    let auth = spec.auth.debug_view();
    let s8 = s7 + ", auth: "@ + auth;
    lemma_told(s7, ", auth: "@, auth);
    let tls = spec.tls.debug_view();
    let s9 = s8 + ", tls: "@ + tls;
    lemma_told(s8, ", tls: "@, tls);
    let connect = crate::text::decimal(spec.connect_timeout_ms as nat);
    let s10 = s9 + ", connect_timeout_ms: "@ + connect;
    lemma_told(s9, ", connect_timeout_ms: "@, connect);
    let timeout = crate::text::decimal(spec.operation_timeout_ms as nat);
    let s11 = s10 + ", operation_timeout_ms: "@ + timeout;
    lemma_told(s10, ", operation_timeout_ms: "@, timeout);
    let response = crate::text::decimal(spec.max_response_bytes as nat);
    let s12 = s11 + ", max_response_bytes: "@ + response;
    lemma_told(s11, ", max_response_bytes: "@, response);
    let request = crate::text::decimal(spec.max_request_bytes as nat);
    let s13 = s12 + ", max_request_bytes: "@ + request;
    lemma_told(s12, ", max_request_bytes: "@, request);
    let size = crate::text::decimal(spec.max_size as nat);
    let s14 = s13 + ", max_size: "@ + size;
    lemma_told(s13, ", max_size: "@, size);
    let from = crate::text::decimal(spec.max_from as nat);
    let s15 = s14 + ", max_from: "@ + from;
    lemma_told(s14, ", max_from: "@, from);
    let private = crate::call::bool_name(spec.allow_private_backends);
    let s16 = s15 + ", allow_private_backends: "@ + private;
    lemma_told(s15, ", allow_private_backends: "@, private);
    let s17 = s16 + ", knn: "@ + knn;
    lemma_told(s16, ", knn: "@, knn);
    lemma_still_occurs(s17, " }"@);
    assert(spec.debug_view(knn) == s17 + " }"@);
}

/// What is told of credentials: their kind, a user name in quotes, and no secret.
pub proof fn law_description_of_credentials(auth: EsAuth)
    ensures
        auth is Anonymous ==> auth.debug_view() == "None"@,
        auth is ApiKey ==> auth.debug_view() == "ApiKey { api_key: \"***\" }"@,
        auth is Bearer ==> auth.debug_view() == "Bearer { token: \"***\" }"@,
        auth matches EsAuth::Basic { username, .. } ==> auth.debug_view()
            == "Basic { username: "@ + quoted(username@) + ", password: \"***\" }"@,
{
}

/// What is told of TLS settings: whether there are certificates, and whether the one of
/// the server goes unchecked.
pub proof fn law_description_of_tls(tls: EsTlsConfig)
    ensures
        tls.ca_cert_pem is Some && tls.insecure_skip_verify ==> tls.debug_view()
            == "EsTlsConfig { ca_cert_pem: "@ + "Some(\"<pem>\")"@ + ", insecure_skip_verify: "@
            + "true"@ + " }"@,
        tls.ca_cert_pem is Some && !tls.insecure_skip_verify ==> tls.debug_view()
            == "EsTlsConfig { ca_cert_pem: "@ + "Some(\"<pem>\")"@ + ", insecure_skip_verify: "@
            + "false"@ + " }"@,
        tls.ca_cert_pem is None && tls.insecure_skip_verify ==> tls.debug_view()
            == "EsTlsConfig { ca_cert_pem: "@ + "None"@ + ", insecure_skip_verify: "@ + "true"@
            + " }"@,
        tls.ca_cert_pem is None && !tls.insecure_skip_verify ==> tls.debug_view()
            == "EsTlsConfig { ca_cert_pem: "@ + "None"@ + ", insecure_skip_verify: "@ + "false"@
            + " }"@,
{
}

/// A list is told in brackets, its texts in quotes and in their order, with a comma and a
/// blank between them; an optional text in quotes, or as none.
pub proof fn law_description_of_texts(items: Seq<Seq<char>>, s: Seq<char>, i: int)
    ensures
        quoted_option(None) == "None"@,
        quoted_option(Some(s)) == "Some("@ + quoted(s) + ")"@,
        exists|parts: Seq<Seq<char>>|
            {
                &&& quoted_list(items) == "["@ + #[trigger] crate::text::joined(parts, ", "@) + "]"@
                &&& parts.len() == items.len()
                &&& 0 <= i < items.len() ==> parts[i] == quoted(items[i])
            },
{
    let parts = items.map_values(|t: Seq<char>| quoted(t));
    assert(parts =~= items.map_values(|s: Seq<char>| quoted(s)));
    assert(quoted_list(items) == "["@ + crate::text::joined(parts, ", "@) + "]"@);
}

/// The name of an operation in a description.
pub proof fn law_description_of_operations()
    ensures
        EsOperation::Search.variant() == "Search"@,
        EsOperation::Count.variant() == "Count"@,
        EsOperation::Get.variant() == "Get"@,
        EsOperation::Index.variant() == "Index"@,
        EsOperation::Delete.variant() == "Delete"@,
        EsOperation::Bulk.variant() == "Bulk"@,
        EsOperation::Msearch.variant() == "Msearch"@,
        EsOperation::Knn.variant() == "Knn"@,
{
}

} // verus!
