//! Validation of a configuration.
//!
//! The faults are looked for in a fixed order, and the first one found is
//! reported.

use vstd::prelude::*;

use crate::config::{
    is_allowed_endpoint, is_loopback_url, is_safe_allowlist_token, is_safe_field_token,
    is_safe_index_token, ElasticsearchBackendSpec, EsAuth, EsOperation, EsTlsConfig, SpecError, SpecFault,
    VectorElement,
};
use crate::surface::Surface;
use crate::text::is_blank;

verus! {

/// The first of two faults.
pub open spec fn first_of(a: Option<SpecFault>, b: Option<SpecFault>) -> Option<SpecFault> {
    match a {
        Some(_) => a,
        None => b,
    }
}

/// The fault that a validation reports.
pub open spec fn reported(r: Result<(), SpecError>) -> Option<SpecFault> {
    match r {
        Ok(_) => None,
        Err(e) => Some(e@),
    }
}

/// A fault where the condition holds.
pub open spec fn fault_if(c: bool, f: SpecFault) -> Option<SpecFault> {
    if c {
        Some(f)
    } else {
        None
    }
}

impl EsAuth {
    /// The secret that must not be blank.
    pub open spec fn secret(self) -> Option<Seq<char>> {
        match self {
            EsAuth::Anonymous => None,
            EsAuth::ApiKey { api_key } => Some(api_key@),
            EsAuth::Basic { username, password } => Some(password@),
            EsAuth::Bearer { token } => Some(token@),
        }
    }
}

/// There are base URLs, and each may be called.
pub open spec fn urls_fault(urls: Seq<String>) -> Option<SpecFault> {
    if urls.len() == 0 {
        Some(SpecFault::EmptyUrls)
    } else {
        match crate::text::first_from(
            0,
            urls.len() as int,
            |i: int| !crate::config::allowed_endpoint(crate::text::trimmed(urls[i]@)),
        ) {
            Some(i) => Some(SpecFault::InvalidUrl(urls[i]@)),
            None => None,
        }
    }
}

/// The server's certificate goes unchecked on this host only.
pub open spec fn certificate_fault(tls: EsTlsConfig, urls: Seq<String>) -> Option<SpecFault> {
    if !tls.insecure_skip_verify {
        None
    } else if tls.ca_cert_pem is Some {
        Some(SpecFault::TlsContradiction)
    } else {
        fault_if(
            exists|i: int|
                0 <= i < urls.len() && !crate::config::loopback_url(
                    crate::text::trimmed((#[trigger] urls[i])@),
                ),
            SpecFault::InsecureSkipVerifyNonLoopback,
        )
    }
}

/// A secret is not blank.
pub open spec fn secret_fault(auth: EsAuth) -> Option<SpecFault> {
    match auth.secret() {
        Some(s) => fault_if(crate::text::blank(s), SpecFault::EmptyAuthSecret),
        None => None,
    }
}

impl ElasticsearchBackendSpec {
    /// There are base URLs, and each may be called.
    pub open spec fn url_fault(self) -> Option<SpecFault> {
        urls_fault(self.urls@)
    }

    /// Each entry of the allowlist is a valid one.
    pub open spec fn allowlist_fault(self) -> Option<SpecFault> {
        match crate::text::first_from(
            0,
            self.index_allowlist@.len() as int,
            |i: int| !crate::config::safe_token(self.index_allowlist@[i]@, true),
        ) {
            Some(i) => Some(SpecFault::InvalidIndexToken(self.index_allowlist@[i]@)),
            None => None,
        }
    }

    /// The default index is a safe name and reachable.
    pub open spec fn default_index_fault(self) -> Option<SpecFault> {
        match self.default_index {
            Some(d) => if !crate::config::safe_index_token(d@) {
                Some(SpecFault::InvalidIndexToken(d@))
            } else if !self.reachable(d@) {
                Some(SpecFault::DefaultIndexNotAllowed(d@))
            } else {
                None
            },
            None => None,
        }
    }

    /// Some index can be reached.
    pub open spec fn reach_fault(self) -> Option<SpecFault> {
        fault_if(
            self.index_allowlist@.len() == 0 && !self.allow_any_index && (self.operation is Msearch
                || self.default_index is None),
            SpecFault::NoReachableIndex,
        )
    }

    /// An operation that changes an index is allowed to.
    pub open spec fn write_fault(self) -> Option<SpecFault> {
        fault_if(
            self.operation.writes() && !self.allow_writes,
            SpecFault::WritesNotAllowed(self.operation.name()),
        )
    }

    /// The server's certificate goes unchecked on this host only.
    pub open spec fn tls_fault(self) -> Option<SpecFault> {
        certificate_fault(self.tls, self.urls@)
    }

    /// A secret is not blank.
    pub open spec fn auth_fault(self) -> Option<SpecFault> {
        secret_fault(self.auth)
    }

    /// Timeouts and caps are above zero.
    pub open spec fn limit_fault(self) -> Option<SpecFault> {
        if self.operation_timeout_ms == 0 {
            Some(SpecFault::InvalidOperationTimeout)
        } else if self.connect_timeout_ms == 0 {
            Some(SpecFault::InvalidConnectTimeout)
        } else if self.max_response_bytes == 0 {
            Some(SpecFault::InvalidResponseBytes)
        } else if self.max_request_bytes == 0 {
            Some(SpecFault::InvalidRequestBytes)
        } else if self.max_size == 0 {
            Some(SpecFault::InvalidMaxSize)
        } else {
            None
        }
    }

    /// A fixed URI is for a resource, and not blank.
    pub open spec fn uri_fault(self) -> Option<SpecFault> {
        match self.uri {
            Some(u) => if !(self.surface is Resource) {
                Some(SpecFault::UriRequiresResourceSurface)
            } else {
                fault_if(crate::text::blank(u@), SpecFault::EmptyUri)
            },
            None => None,
        }
    }

    /// The listing has a field for the URI, a page size in bounds and an index.
    pub open spec fn list_fault(self) -> Option<SpecFault> {
        match self.list_query {
            Some(l) => if crate::text::blank(l.uri_field@) {
                Some(SpecFault::EmptyListUriField)
            } else if !(1 <= l.page_size <= 1000) {
                Some(SpecFault::InvalidListPageSize)
            } else {
                match self.resolved_index(crate::text::opt_string(l.index)) {
                    Ok(_) => None,
                    Err(m) => Some(SpecFault::InvalidListIndex(m)),
                }
            },
            None => None,
        }
    }

    /// A completion has a safe field and an index.
    pub open spec fn completion_fault(self, i: int) -> Option<SpecFault> {
        let name = self.variable_completions@[i].0@;
        let c = self.variable_completions@[i].1;
        if !crate::config::safe_field_token(c.field@) {
            Some(SpecFault::InvalidCompletionField(name, c.field@))
        } else {
            match self.resolved_index(crate::text::opt_string(c.index)) {
                Ok(_) => None,
                Err(m) => Some(SpecFault::InvalidCompletionIndex(name, m)),
            }
        }
    }

    /// Every completion is in order.
    pub open spec fn completions_fault(self) -> Option<SpecFault> {
        match crate::text::first_from(
            0,
            self.variable_completions@.len() as int,
            |i: int| self.completion_fault(i) is Some,
        ) {
            Some(i) => self.completion_fault(i),
            None => None,
        }
    }

    /// The vector search is there for its operation alone, and in order.
    pub open spec fn knn_fault(self) -> Option<SpecFault> {
        match self.knn {
            None => fault_if(self.operation is Knn, SpecFault::KnnConfigMissing),
            Some(k) => if !(self.operation is Knn) {
                Some(SpecFault::KnnConfigUnused)
            } else if !crate::config::safe_field_token(k.field@) {
                Some(SpecFault::InvalidKnnField)
            } else if k.k == 0 {
                Some(SpecFault::InvalidKnnK)
            } else {
                match k.query_vector {
                    Some(v) => fault_if(
                        v@.len() == 0 || exists|i: int|
                            0 <= i < v@.len() && (#[trigger] v@[i]) is NonFinite,
                        SpecFault::InvalidKnnLiteralVector,
                    ),
                    None => None,
                }
            },
        }
    }

    /// The first fault of the configuration.
    pub open spec fn first_fault(self) -> Option<SpecFault> {
        first_of(
            self.url_fault(),
            first_of(
                self.allowlist_fault(),
                first_of(
                    self.default_index_fault(),
                    first_of(
                        self.reach_fault(),
                        first_of(
                            self.write_fault(),
                            first_of(
                                self.tls_fault(),
                                first_of(
                                    self.auth_fault(),
                                    first_of(
                                        self.limit_fault(),
                                        first_of(
                                            self.uri_fault(),
                                            first_of(
                                                self.list_fault(),
                                                first_of(
                                                    self.completions_fault(),
                                                    self.knn_fault(),
                                                ),
                                            ),
                                        ),
                                    ),
                                ),
                            ),
                        ),
                    ),
                ),
            ),
        )
    }

    fn check_urls(&self) -> (r: Result<(), SpecError>)
        ensures
            reported(r) == self.url_fault(),
    {
        if self.urls.is_empty() {
            return Err(SpecError::EmptyUrls);
        }
        let ghost bad = |i: int|
            !crate::config::allowed_endpoint(crate::text::trimmed(self.urls@[i]@));
        let ghost n = self.urls@.len() as int;
        let mut i: usize = 0;
        while i < self.urls.len()
            invariant
                n == self.urls@.len(),
                i <= n,
                bad == |i: int|
                    !crate::config::allowed_endpoint(crate::text::trimmed(self.urls@[i]@)),
                crate::text::first_from(0, n, bad) == crate::text::first_from(i as int, n, bad),
                self.urls@.len() > 0,
            decreases self.urls@.len() - i,
        {
            if !is_allowed_endpoint(self.urls[i].as_str().trim()) {
                return Err(SpecError::InvalidUrl(self.urls[i].clone()));
            }
            i += 1;
        }
        Ok(())
    }

    fn check_allowlist(&self) -> (r: Result<(), SpecError>)
        ensures
            reported(r) == self.allowlist_fault(),
    {
        let ghost bad = |i: int| !crate::config::safe_token(self.index_allowlist@[i]@, true);
        let ghost n = self.index_allowlist@.len() as int;
        let mut i: usize = 0;
        while i < self.index_allowlist.len()
            invariant
                n == self.index_allowlist@.len(),
                i <= n,
                bad == |i: int| !crate::config::safe_token(self.index_allowlist@[i]@, true),
                crate::text::first_from(0, n, bad) == crate::text::first_from(i as int, n, bad),
            decreases self.index_allowlist@.len() - i,
        {
            if !is_safe_allowlist_token(self.index_allowlist[i].as_str()) {
                return Err(SpecError::InvalidIndexToken(self.index_allowlist[i].clone()));
            }
            i += 1;
        }
        Ok(())
    }

    fn check_default_index(&self) -> (r: Result<(), SpecError>)
        ensures
            reported(r) == self.default_index_fault(),
    {
        if let Some(d) = &self.default_index {
            if !is_safe_index_token(d.as_str()) {
                return Err(SpecError::InvalidIndexToken(d.clone()));
            }
            if !self.allow_any_index && !crate::config::allowlist_covers(
                self.index_allowlist.as_slice(),
                d.as_str(),
            ) {
                return Err(SpecError::DefaultIndexNotAllowed(d.clone()));
            }
        }
        Ok(())
    }

    fn check_tls(&self) -> (r: Result<(), SpecError>)
        ensures
            reported(r) == self.tls_fault(),
    {
        if !self.tls.insecure_skip_verify {
            return Ok(());
        }
        if self.tls.ca_cert_pem.is_some() {
            return Err(SpecError::TlsContradiction);
        }
        let mut i: usize = 0;
        while i < self.urls.len()
            invariant
                i <= self.urls@.len(),
                self.tls.insecure_skip_verify,
                self.tls.ca_cert_pem is None,
                forall|j: int|
                    0 <= j < i ==> crate::config::loopback_url(
                        crate::text::trimmed((#[trigger] self.urls@[j])@),
                    ),
            decreases self.urls@.len() - i,
        {
            if !is_loopback_url(self.urls[i].as_str().trim()) {
                assert(!crate::config::loopback_url(crate::text::trimmed(self.urls@[i as int]@)));
                return Err(SpecError::InsecureSkipVerifyNonLoopback);
            }
            i += 1;
        }
        Ok(())
    }

    fn check_auth(&self) -> (r: Result<(), SpecError>)
        ensures
            reported(r) == self.auth_fault(),
    {
        let secret: &String = match &self.auth {
            EsAuth::Anonymous => {
                return Ok(());
            },
            EsAuth::ApiKey { api_key } => api_key,
            EsAuth::Basic { password, .. } => password,
            EsAuth::Bearer { token } => token,
        };
        if is_blank(secret.as_str()) {
            return Err(SpecError::EmptyAuthSecret);
        }
        Ok(())
    }

    fn check_limits(&self) -> (r: Result<(), SpecError>)
        ensures
            reported(r) == self.limit_fault(),
    {
        if self.operation_timeout_ms == 0 {
            return Err(SpecError::InvalidOperationTimeout);
        }
        if self.connect_timeout_ms == 0 {
            return Err(SpecError::InvalidConnectTimeout);
        }
        if self.max_response_bytes == 0 {
            return Err(SpecError::InvalidResponseBytes);
        }
        if self.max_request_bytes == 0 {
            return Err(SpecError::InvalidRequestBytes);
        }
        if self.max_size == 0 {
            return Err(SpecError::InvalidMaxSize);
        }
        Ok(())
    }

    fn check_uri(&self) -> (r: Result<(), SpecError>)
        ensures
            reported(r) == self.uri_fault(),
    {
        if let Some(u) = &self.uri {
            if self.surface != Surface::Resource {
                return Err(SpecError::UriRequiresResourceSurface);
            }
            if is_blank(u.as_str()) {
                return Err(SpecError::EmptyUri);
            }
        }
        Ok(())
    }

    fn check_listing(&self) -> (r: Result<(), SpecError>)
        ensures
            reported(r) == self.list_fault(),
    {
        if let Some(l) = &self.list_query {
            if is_blank(l.uri_field.as_str()) {
                return Err(SpecError::EmptyListUriField);
            }
            if l.page_size < 1 || l.page_size > 1000 {
                return Err(SpecError::InvalidListPageSize);
            }
            if let Err(m) = self.resolve_index(crate::text::borrowed(&l.index)) {
                return Err(SpecError::InvalidListIndex(m));
            }
        }
        Ok(())
    }

    fn check_completion(&self, i: usize) -> (r: Result<(), SpecError>)
        requires
            i < self.variable_completions@.len(),
        ensures
            reported(r) == self.completion_fault(i as int),
    {
        let name = &self.variable_completions[i].0;
        let c = &self.variable_completions[i].1;
        if !is_safe_field_token(c.field.as_str()) {
            return Err(SpecError::InvalidCompletionField(name.clone(), c.field.clone()));
        }
        if let Err(m) = self.resolve_index(crate::text::borrowed(&c.index)) {
            return Err(SpecError::InvalidCompletionIndex(name.clone(), m));
        }
        Ok(())
    }

    fn check_completions(&self) -> (r: Result<(), SpecError>)
        ensures
            reported(r) == self.completions_fault(),
    {
        let ghost bad = |i: int| self.completion_fault(i) is Some;
        let ghost n = self.variable_completions@.len() as int;
        let mut i: usize = 0;
        while i < self.variable_completions.len()
            invariant
                n == self.variable_completions@.len(),
                i <= n,
                bad == |i: int| self.completion_fault(i) is Some,
                crate::text::first_from(0, n, bad) == crate::text::first_from(i as int, n, bad),
            decreases self.variable_completions@.len() - i,
        {
            if let Err(e) = self.check_completion(i) {
                return Err(e);
            }
            i += 1;
        }
        Ok(())
    }

    fn check_knn(&self) -> (r: Result<(), SpecError>)
        ensures
            reported(r) == self.knn_fault(),
    {
        let knn = match &self.knn {
            None => {
                if self.operation == EsOperation::Knn {
                    return Err(SpecError::KnnConfigMissing);
                }
                return Ok(());
            },
            Some(k) => k,
        };
        if self.operation != EsOperation::Knn {
            return Err(SpecError::KnnConfigUnused);
        }
        if !is_safe_field_token(knn.field.as_str()) {
            return Err(SpecError::InvalidKnnField);
        }
        if knn.k == 0 {
            return Err(SpecError::InvalidKnnK);
        }
        if let Some(v) = &knn.query_vector {
            if v.is_empty() {
                return Err(SpecError::InvalidKnnLiteralVector);
            }
            let mut i: usize = 0;
            while i < v.len()
                invariant
                    i <= v@.len(),
                    self.knn == Some(*knn),
                    self.operation is Knn,
                    crate::config::safe_field_token(knn.field@),
                    knn.k > 0,
                    knn.query_vector == Some(*v),
                    v@.len() > 0,
                    forall|j: int| 0 <= j < i ==> !((#[trigger] v@[j]) is NonFinite),
                decreases v@.len() - i,
            {
                if matches!(v[i], VectorElement::NonFinite) {
                    assert(v@[i as int] is NonFinite);
                    return Err(SpecError::InvalidKnnLiteralVector);
                }
                i += 1;
            }
        }
        Ok(())
    }

    /// Reports the first fault of the configuration.
    pub fn validate(&self) -> (r: Result<(), SpecError>)
        ensures
            reported(r) == self.first_fault(),
    {
        if let Err(e) = self.check_urls() {
            return Err(e);
        }
        if let Err(e) = self.check_allowlist() {
            return Err(e);
        }
        if let Err(e) = self.check_default_index() {
            return Err(e);
        }
        if self.index_allowlist.is_empty() && !self.allow_any_index && (
        !self.operation.needs_index() || self.default_index.is_none()) {
            return Err(SpecError::NoReachableIndex);
        }
        if self.operation.is_write() && !self.allow_writes {
            return Err(SpecError::WritesNotAllowed(self.operation.as_str()));
        }
        if let Err(e) = self.check_tls() {
            return Err(e);
        }
        if let Err(e) = self.check_auth() {
            return Err(e);
        }
        if let Err(e) = self.check_limits() {
            return Err(e);
        }
        if let Err(e) = self.check_uri() {
            return Err(e);
        }
        if let Err(e) = self.check_listing() {
            return Err(e);
        }
        if let Err(e) = self.check_completions() {
            return Err(e);
        }
        self.check_knn()
    }

    /// Takes a decoded configuration, or the decoder's message where there is none,
    /// and hands it out if it is free of faults.
    pub fn parse(decoded: Result<Self, String>) -> (r: Result<Self, SpecError>)
        ensures
            match decoded {
                Err(m) => r matches Err(e) && e@ == SpecFault::Json(m@),
                Ok(s) => match s.first_fault() {
                    Some(f) => r matches Err(e) && e@ == f,
                    None => r == Ok::<Self, SpecError>(s),
                },
            },
    {
        match decoded {
            Err(m) => Err(SpecError::Json(m)),
            Ok(s) => match s.validate() {
                Ok(_) => Ok(s),
                Err(e) => Err(e),
            },
        }
    }
}

/// A configuration without faults: it has a URL to call, calls no other host in
/// clear text, leaves no foreign certificate unchecked, and has timeouts and caps.
pub proof fn law_valid_endpoints_and_limits(spec: ElasticsearchBackendSpec)
    requires
        spec.first_fault() is None,
    ensures
        spec.urls@.len() > 0,
        forall|i: int|
            0 <= i < spec.urls@.len() ==> crate::config::allowed_endpoint(
                crate::text::trimmed((#[trigger] spec.urls@[i])@),
            ),
        spec.tls.insecure_skip_verify ==> spec.tls.ca_cert_pem is None && forall|i: int|
            0 <= i < spec.urls@.len() ==> crate::config::loopback_url(
                crate::text::trimmed((#[trigger] spec.urls@[i])@),
            ),
        spec.auth.secret() matches Some(s) ==> !crate::text::blank(s),
        spec.operation_timeout_ms > 0,
        spec.connect_timeout_ms > 0,
        spec.max_response_bytes > 0,
        spec.max_request_bytes > 0,
        spec.max_size > 0,
{
    let bad = |i: int| !crate::config::allowed_endpoint(crate::text::trimmed(spec.urls@[i]@));
    crate::text::lemma_first_from(0, spec.urls@.len() as int, bad);
    assert forall|i: int| 0 <= i < spec.urls@.len() implies crate::config::allowed_endpoint(
        crate::text::trimmed((#[trigger] spec.urls@[i])@),
    ) by {
        assert(!bad(i));
    }
}

/// A configuration without faults reaches some index, changes one only where that
/// is allowed, and every index that it names itself resolves.
pub proof fn law_valid_indices_resolve(spec: ElasticsearchBackendSpec)
    requires
        spec.first_fault() is None,
    ensures
        spec.allow_any_index || spec.index_allowlist@.len() > 0,
        spec.operation.writes() ==> spec.allow_writes,
        spec.default_index matches Some(d) ==> spec.resolved_index(None)
            == Ok::<Seq<char>, Seq<char>>(d@),
        spec.list_query matches Some(l) ==> spec.resolved_index(
            crate::text::opt_string(l.index),
        ) is Ok && 1 <= l.page_size <= 1000,
        forall|i: int|
            0 <= i < spec.variable_completions@.len() ==> {
                let c = (#[trigger] spec.variable_completions@[i]).1;
                &&& crate::config::safe_field_token(c.field@)
                &&& spec.resolved_index(crate::text::opt_string(c.index)) is Ok
            },
{
    let bad = |i: int| spec.completion_fault(i) is Some;
    crate::text::lemma_first_from(0, spec.variable_completions@.len() as int, bad);
    assert forall|i: int| 0 <= i < spec.variable_completions@.len() implies ({
        let c = (#[trigger] spec.variable_completions@[i]).1;
        &&& crate::config::safe_field_token(c.field@)
        &&& spec.resolved_index(crate::text::opt_string(c.index)) is Ok
    }) by {
        assert(!bad(i));
    }
}

/// A configuration without faults has a vector search exactly for the operation
/// that needs one, and a fixed URI only on a resource.
pub proof fn law_valid_parts_fit_together(spec: ElasticsearchBackendSpec)
    requires
        spec.first_fault() is None,
    ensures
        spec.knn is Some <==> spec.operation is Knn,
        spec.knn matches Some(k) ==> crate::config::safe_field_token(k.field@) && k.k > 0,
        spec.uri matches Some(u) ==> spec.surface is Resource && !crate::text::blank(u@),
{
}

/// The faults of a configuration are looked for in a fixed order, and the first one that
/// is there is reported.
pub proof fn law_first_fault_in_the_order_is_reported(spec: ElasticsearchBackendSpec)
    ensures
        ({
            let f = seq![
                spec.url_fault(),
                spec.allowlist_fault(),
                spec.default_index_fault(),
                spec.reach_fault(),
                spec.write_fault(),
                spec.tls_fault(),
                spec.auth_fault(),
                spec.limit_fault(),
                spec.uri_fault(),
                spec.list_fault(),
                spec.completions_fault(),
                spec.knn_fault(),
            ];
            &&& forall|i: int|
                0 <= i < f.len() && (#[trigger] f[i]) is Some && (forall|j: int|
                    0 <= j < i ==> (#[trigger] f[j]) is None) ==> spec.first_fault() == f[i]
            &&& (forall|i: int| 0 <= i < f.len() ==> (#[trigger] f[i]) is None)
                ==> spec.first_fault() is None
        }),
{
    let f = seq![
        spec.url_fault(),
        spec.allowlist_fault(),
        spec.default_index_fault(),
        spec.reach_fault(),
        spec.write_fault(),
        spec.tls_fault(),
        spec.auth_fault(),
        spec.limit_fault(),
        spec.uri_fault(),
        spec.list_fault(),
        spec.completions_fault(),
        spec.knn_fault(),
    ];
    assert forall|i: int|
        0 <= i < f.len() && (#[trigger] f[i]) is Some && (forall|j: int|
            0 <= j < i ==> (#[trigger] f[j]) is None) implies spec.first_fault() == f[i] by {
        assert(i > 0 ==> f[0] is None);
        assert(i > 1 ==> f[1] is None);
        assert(i > 2 ==> f[2] is None);
        assert(i > 3 ==> f[3] is None);
        assert(i > 4 ==> f[4] is None);
        assert(i > 5 ==> f[5] is None);
        assert(i > 6 ==> f[6] is None);
        assert(i > 7 ==> f[7] is None);
        assert(i > 8 ==> f[8] is None);
        assert(i > 9 ==> f[9] is None);
        assert(i > 10 ==> f[10] is None);
    }
    if forall|i: int| 0 <= i < f.len() ==> (#[trigger] f[i]) is None {
        assert(f[0] is None && f[1] is None && f[2] is None && f[3] is None && f[4] is None
            && f[5] is None && f[6] is None && f[7] is None && f[8] is None && f[9] is None
            && f[10] is None && f[11] is None);
    }
}

/// Base URLs are in order where there is one and each may be called. Otherwise the first
/// that may not is named.
pub proof fn law_fault_of_base_urls(urls: Seq<String>, at: int)
    ensures
        urls.len() == 0 ==> urls_fault(urls) == Some(SpecFault::EmptyUrls),
        0 <= at < urls.len() && !crate::config::allowed_endpoint(crate::text::trimmed(urls[at]@))
            && (forall|j: int|
            0 <= j < at ==> crate::config::allowed_endpoint(
                crate::text::trimmed((#[trigger] urls[j])@),
            )) ==> urls_fault(urls) == Some(SpecFault::InvalidUrl(urls[at]@)),
        urls.len() > 0 && (forall|j: int|
            0 <= j < urls.len() ==> crate::config::allowed_endpoint(
                crate::text::trimmed((#[trigger] urls[j])@),
            )) ==> urls_fault(urls) is None,
{
    let bad = |i: int| !crate::config::allowed_endpoint(crate::text::trimmed(urls[i]@));
    crate::text::lemma_first_from(0, urls.len() as int, bad);
    let found = crate::text::first_from(0, urls.len() as int, bad);
    if let Some(i) = found {
        assert(!crate::config::allowed_endpoint(crate::text::trimmed(urls[i]@)));
    }
    if 0 <= at < urls.len() && !crate::config::allowed_endpoint(crate::text::trimmed(urls[at]@))
        && (forall|j: int|
        0 <= j < at ==> crate::config::allowed_endpoint(
            crate::text::trimmed((#[trigger] urls[j])@),
        )) {
        assert(bad(at));
        assert(found == Some(at));
    }
}

/// An allowlist is in order where each entry is a valid one. Otherwise the first that is
/// not is named.
pub proof fn law_fault_of_the_allowlist(spec: ElasticsearchBackendSpec, at: int)
    ensures
        ({
            let list = spec.index_allowlist@;
            &&& 0 <= at < list.len() && !crate::config::safe_token(list[at]@, true) && (forall|j: int|
                0 <= j < at ==> crate::config::safe_token((#[trigger] list[j])@, true))
                ==> spec.allowlist_fault() == Some(SpecFault::InvalidIndexToken(list[at]@))
            &&& (forall|j: int|
                0 <= j < list.len() ==> crate::config::safe_token((#[trigger] list[j])@, true))
                ==> spec.allowlist_fault() is None
        }),
{
    let list = spec.index_allowlist@;
    let bad = |i: int| !crate::config::safe_token(spec.index_allowlist@[i]@, true);
    crate::text::lemma_first_from(0, list.len() as int, bad);
    let found = crate::text::first_from(0, list.len() as int, bad);
    if let Some(i) = found {
        assert(!crate::config::safe_token(list[i]@, true));
    }
    if 0 <= at < list.len() && !crate::config::safe_token(list[at]@, true) && (forall|j: int|
        0 <= j < at ==> crate::config::safe_token((#[trigger] list[j])@, true)) {
        assert(bad(at));
        assert(found == Some(at));
    }
}

/// Which indices a configuration must reach: a default index must be the name of one and
/// reachable, and without an allowlist and without a default index, or for several
/// searches, every index must be.
pub proof fn law_faults_of_reach(spec: ElasticsearchBackendSpec)
    ensures
        spec.default_index is None ==> spec.default_index_fault() is None,
        spec.default_index matches Some(d) ==> {
            &&& !crate::config::safe_index_token(d@) ==> spec.default_index_fault() == Some(
                SpecFault::InvalidIndexToken(d@),
            )
            &&& crate::config::safe_index_token(d@) && !spec.reachable(d@)
                ==> spec.default_index_fault() == Some(SpecFault::DefaultIndexNotAllowed(d@))
            &&& crate::config::safe_index_token(d@) && spec.reachable(d@)
                ==> spec.default_index_fault() is None
        },
        ({
            let closed = spec.index_allowlist@.len() == 0 && !spec.allow_any_index;
            &&& closed && spec.default_index is None ==> spec.reach_fault() == Some(
                SpecFault::NoReachableIndex,
            )
            &&& closed && spec.operation is Msearch ==> spec.reach_fault() == Some(
                SpecFault::NoReachableIndex,
            )
            &&& !closed ==> spec.reach_fault() is None
            &&& spec.default_index is Some && !(spec.operation is Msearch)
                ==> spec.reach_fault() is None
        }),
{
}

/// An operation that changes an index must be allowed to, and the one that is not is
/// named.
pub proof fn law_fault_of_writing(spec: ElasticsearchBackendSpec)
    ensures
        ({
            let writes = spec.operation is Index || spec.operation is Delete
                || spec.operation is Bulk;
            &&& writes && !spec.allow_writes ==> spec.write_fault() == Some(
                SpecFault::WritesNotAllowed(spec.operation.name()),
            )
            &&& !writes || spec.allow_writes ==> spec.write_fault() is None
        }),
{
}

/// The certificate of a server may go unchecked where all base URLs have loopback hosts
/// and no certificates are configured. A secret must not be blank.
pub proof fn law_faults_of_connection(tls: EsTlsConfig, urls: Seq<String>, auth: EsAuth)
    ensures
        !tls.insecure_skip_verify ==> certificate_fault(tls, urls) is None,
        tls.insecure_skip_verify && tls.ca_cert_pem is Some ==> certificate_fault(tls, urls)
            == Some(SpecFault::TlsContradiction),
        tls.insecure_skip_verify && tls.ca_cert_pem is None ==> {
            let here = forall|i: int|
                0 <= i < urls.len() ==> crate::config::loopback_url(
                    crate::text::trimmed((#[trigger] urls[i])@),
                );
            &&& here ==> certificate_fault(tls, urls) is None
            &&& !here ==> certificate_fault(tls, urls) == Some(
                SpecFault::InsecureSkipVerifyNonLoopback,
            )
        },
        match auth {
            EsAuth::Anonymous => secret_fault(auth) is None,
            EsAuth::ApiKey { api_key } => secret_fault(auth) is None <==> !crate::text::blank(
                api_key@,
            ),
            EsAuth::Basic { username, password } => secret_fault(auth) is None
                <==> !crate::text::blank(password@),
            EsAuth::Bearer { token } => secret_fault(auth) is None <==> !crate::text::blank(token@),
        },
        secret_fault(auth) matches Some(f) ==> f == SpecFault::EmptyAuthSecret,
{
}

/// The faults of a configuration are those of its own URLs, settings and credentials.
pub proof fn law_faults_of_own_connection(spec: ElasticsearchBackendSpec)
    ensures
        spec.url_fault() == urls_fault(spec.urls@),
        spec.tls_fault() == certificate_fault(spec.tls, spec.urls@),
        spec.auth_fault() == secret_fault(spec.auth),
{
}

/// Timeouts, caps and the ceiling of a page must be above zero, and the first that is not
/// is named. The ceiling of where a page starts may be zero.
pub proof fn law_faults_of_limits(spec: ElasticsearchBackendSpec)
    ensures
        spec.limit_fault() is None <==> spec.operation_timeout_ms > 0 && spec.connect_timeout_ms > 0
            && spec.max_response_bytes > 0 && spec.max_request_bytes > 0 && spec.max_size > 0,
        spec.operation_timeout_ms == 0 ==> spec.limit_fault() == Some(
            SpecFault::InvalidOperationTimeout,
        ),
        spec.operation_timeout_ms > 0 ==> {
            &&& spec.connect_timeout_ms == 0 ==> spec.limit_fault() == Some(
                SpecFault::InvalidConnectTimeout,
            )
            &&& spec.connect_timeout_ms > 0 ==> {
                &&& spec.max_response_bytes == 0 ==> spec.limit_fault() == Some(
                    SpecFault::InvalidResponseBytes,
                )
                &&& spec.max_response_bytes > 0 ==> {
                    &&& spec.max_request_bytes == 0 ==> spec.limit_fault() == Some(
                        SpecFault::InvalidRequestBytes,
                    )
                    &&& spec.max_request_bytes > 0 && spec.max_size == 0 ==> spec.limit_fault()
                        == Some(SpecFault::InvalidMaxSize)
                }
            }
        },
{
}

/// A fixed URI must be one of a resource and not blank.
pub proof fn law_faults_of_a_fixed_uri(spec: ElasticsearchBackendSpec)
    ensures
        spec.uri is None ==> spec.uri_fault() is None,
        spec.uri matches Some(u) ==> {
            &&& !(spec.surface is Resource) ==> spec.uri_fault() == Some(
                SpecFault::UriRequiresResourceSurface,
            )
            &&& spec.surface is Resource && crate::text::blank(u@) ==> spec.uri_fault() == Some(
                SpecFault::EmptyUri,
            )
            &&& spec.surface is Resource && !crate::text::blank(u@) ==> spec.uri_fault() is None
        },
{
}

/// A listing must have a field for the URI, a page of 1 to 1000 hits, and an index that
/// resolves.
pub proof fn law_faults_of_a_listing(spec: ElasticsearchBackendSpec)
    ensures
        spec.list_query is None ==> spec.list_fault() is None,
        spec.list_query matches Some(l) ==> {
            let sized = 1 <= l.page_size <= 1000;
            &&& crate::text::blank(l.uri_field@) ==> spec.list_fault() == Some(
                SpecFault::EmptyListUriField,
            )
            &&& !crate::text::blank(l.uri_field@) && !sized ==> spec.list_fault() == Some(
                SpecFault::InvalidListPageSize,
            )
            &&& !crate::text::blank(l.uri_field@) && sized ==> match spec.resolved_index(
                crate::text::opt_string(l.index),
            ) {
                Ok(_) => spec.list_fault() is None,
                Err(m) => spec.list_fault() == Some(SpecFault::InvalidListIndex(m)),
            }
        },
{
}

/// A completion must have a field that is the name of one and an index that resolves. The
/// first that has not is named with its variable.
pub proof fn law_faults_of_completions(spec: ElasticsearchBackendSpec, at: int)
    ensures
        ({
            let name = spec.variable_completions@[at].0@;
            let c = spec.variable_completions@[at].1;
            &&& !crate::config::safe_field_token(c.field@) ==> spec.completion_fault(at) == Some(
                SpecFault::InvalidCompletionField(name, c.field@),
            )
            &&& crate::config::safe_field_token(c.field@) ==> match spec.resolved_index(
                crate::text::opt_string(c.index),
            ) {
                Ok(_) => spec.completion_fault(at) is None,
                Err(m) => spec.completion_fault(at) == Some(
                    SpecFault::InvalidCompletionIndex(name, m),
                ),
            }
        }),
        0 <= at < spec.variable_completions@.len() && spec.completion_fault(at) is Some && (forall|
            j: int,
        |
            0 <= j < at ==> (#[trigger] spec.completion_fault(j)) is None)
            ==> spec.completions_fault() == spec.completion_fault(at),
        (forall|j: int|
            0 <= j < spec.variable_completions@.len() ==> (#[trigger] spec.completion_fault(
                j,
            )) is None) ==> spec.completions_fault() is None,
{
    let bad = |i: int| spec.completion_fault(i) is Some;
    let n = spec.variable_completions@.len() as int;
    crate::text::lemma_first_from(0, n, bad);
    let found = crate::text::first_from(0, n, bad);
    if let Some(i) = found {
        assert(spec.completion_fault(i) is Some);
    }
    if 0 <= at < n && spec.completion_fault(at) is Some && (forall|j: int|
        0 <= j < at ==> (#[trigger] spec.completion_fault(j)) is None) {
        assert(bad(at));
        assert(found == Some(at));
    }
}

/// A vector search must be configured for its operation and for no other. It must have a
/// field that is the name of one, at least one neighbour, and a vector, if it has one,
/// that is not empty and of finite numbers.
pub proof fn law_faults_of_a_vector_search(spec: ElasticsearchBackendSpec)
    ensures
        spec.knn is None && spec.operation is Knn ==> spec.knn_fault() == Some(
            SpecFault::KnnConfigMissing,
        ),
        spec.knn is None && !(spec.operation is Knn) ==> spec.knn_fault() is None,
        spec.knn is Some && !(spec.operation is Knn) ==> spec.knn_fault() == Some(
            SpecFault::KnnConfigUnused,
        ),
        spec.knn matches Some(k) ==> (spec.operation is Knn ==> {
            let named = crate::config::safe_field_token(k.field@);
            let usable = k.query_vector matches Some(v) ==> v@.len() > 0 && forall|i: int|
                0 <= i < v@.len() ==> (#[trigger] v@[i]) is Finite;
            &&& !named ==> spec.knn_fault() == Some(SpecFault::InvalidKnnField)
            &&& named && k.k == 0 ==> spec.knn_fault() == Some(SpecFault::InvalidKnnK)
            &&& named && k.k > 0 && !usable ==> spec.knn_fault() == Some(
                SpecFault::InvalidKnnLiteralVector,
            )
            &&& named && k.k > 0 && usable ==> spec.knn_fault() is None
        }),
{
    if let Some(k) = spec.knn {
        if let Some(v) = k.query_vector {
            if forall|i: int| 0 <= i < v@.len() ==> (#[trigger] v@[i]) is Finite {
                assert forall|i: int| 0 <= i < v@.len() implies !((#[trigger] v@[i]) is NonFinite) by {
                    assert(v@[i] is Finite);
                }
            }
        }
    }
}

} // verus!
