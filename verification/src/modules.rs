use vstd::prelude::*;
use crate::report::{Finding, ModuleResult, Severity};
use crate::enumeration::subdomain_pool;
use crate::Error;

verus! {

/// Closed, extensible enumeration of module identities.
#[derive(Clone, Copy, Debug, PartialEq, Eq, Structural)]
pub enum ModuleName {
    HttpDsStoreDisclosure,
    HttpGitConfigDisclosure,
    HttpTraefikDashboardUnauthenticatedAccess,
    SubdomainsCrtsh,
}

impl ModuleName {
    /// The stable textual form of the identity.
    pub open spec fn spec_str(self) -> Seq<char> {
        match self {
            ModuleName::HttpDsStoreDisclosure => "http/ds_store_disclosure"@,
            ModuleName::HttpGitConfigDisclosure => "http/git_config_disclosure"@,
            ModuleName::HttpTraefikDashboardUnauthenticatedAccess => (
                "http/traefik_dashboard_unauthenticated_access"@
            ),
            ModuleName::SubdomainsCrtsh => "subdomains/crtsh"@,
        }
    }

    /// Textual form of the identity, used in reports and error causes.
    pub fn as_str(self) -> (r: &'static str)
        ensures
            r@ == self.spec_str(),
    {
        match self {
            ModuleName::HttpDsStoreDisclosure => "http/ds_store_disclosure",
            ModuleName::HttpGitConfigDisclosure => "http/git_config_disclosure",
            ModuleName::HttpTraefikDashboardUnauthenticatedAccess => (
                "http/traefik_dashboard_unauthenticated_access"
            ),
            ModuleName::SubdomainsCrtsh => "subdomains/crtsh",
        }
    }
}

/// Semantic version of a module: major, minor, patch. Assigned at
/// construction and immutable for the module's lifetime.
#[derive(Clone, Copy, Debug, PartialEq, Eq, Structural)]
pub struct ModuleVersion(pub u64, pub u64, pub u64);

/// The base capability contract every module exposes: identity,
/// description, version, severity, and the aggressiveness flag. All of
/// them are fixed at construction and reused across every target of a
/// run.
pub trait Module: Sized {
    /// Internal well-formedness of the instance, established by the
    /// module's constructor and required by its scans.
    spec fn inv(&self) -> bool;

    spec fn spec_name(&self) -> ModuleName;

    spec fn spec_description(&self) -> Seq<char>;

    spec fn spec_version(&self) -> ModuleVersion;

    spec fn spec_aggressive(&self) -> bool;

    spec fn spec_severity(&self) -> Severity;

    fn name(&self) -> (r: ModuleName)
        ensures
            r == self.spec_name(),
    ;

    fn description(&self) -> (r: String)
        ensures
            r@ == self.spec_description(),
    ;

    fn version(&self) -> (r: ModuleVersion)
        ensures
            r == self.spec_version(),
    ;

    fn is_aggressive(&self) -> (r: bool)
        ensures
            r == self.spec_aggressive(),
    ;

    fn severity(&self) -> (r: Severity)
        ensures
            r == self.spec_severity(),
    ;
}

/// Whether a module may run under the given aggressiveness opt-in:
/// aggressive modules are excluded unless explicitly opted in, decided
/// before any network call.
pub open spec fn eligible<M: Module>(m: M, include_aggressive: bool) -> bool {
    include_aggressive || !m.spec_aggressive()
}

/// The eligible modules, in registration order.
pub open spec fn eligible_modules<M: Module>(ms: Seq<M>, include_aggressive: bool) -> Seq<M>
    decreases ms.len(),
{
    if ms.len() == 0 {
        Seq::empty()
    } else {
        let rest = eligible_modules(ms.drop_last(), include_aggressive);
        if eligible(ms.last(), include_aggressive) {
            rest.push(ms.last())
        } else {
            rest
        }
    }
}

/// The request-response probe capability: build one deterministic
/// candidate URL per endpoint, and classify the response to exactly one
/// GET of it. A non-success status is an expected negative, never an
/// error; transport failures are handled by the caller and never reach
/// the classifier.
pub trait HttpModule: Module {
    /// The single candidate URL probed for an endpoint.
    spec fn spec_url(&self, endpoint: Seq<char>) -> Seq<char>;

    /// The detection predicate: whether a response body, given as raw
    /// bytes and as decoded text, is a positive detection.
    spec fn positive(&self, body_bytes: Seq<u8>, body_text: Seq<char>) -> bool;

    fn candidate_url(&self, endpoint: &str) -> (r: String)
        requires
            self.inv(),
        ensures
            r@ == self.spec_url(endpoint@),
    ;

    /// Classifies one response. A finding is produced exactly when the
    /// status was a success and the body is positive, and it carries
    /// the module's fixed identity, version and severity, and the
    /// probed URL.
    fn classify(&self, url: String, status_success: bool, body_bytes: &[u8], body_text: &str) -> (r:
        Option<Finding>)
        requires
            self.inv(),
        ensures
            status_success && self.positive(body_bytes@, body_text@) ==> r == Some(
                (Finding {
                    module: self.spec_name(),
                    module_version: self.spec_version(),
                    severity: self.spec_severity(),
                    result: ModuleResult::Url(url),
                }),
            ),
            !(status_success && self.positive(body_bytes@, body_text@)) ==> r is None,
    ;
}

/// The enumeration capability: query a structured source for a domain
/// and clean the decoded records into a duplicate-free collection of
/// names. A non-success status or an undecodable body is a hard
/// failure; an empty record list is a successful empty result.
pub trait SubdomainModule: Module {
    /// The URL queried for a domain.
    spec fn spec_query_url(&self, domain: Seq<char>) -> Seq<char>;

    fn query_url(&self, domain: &str) -> (r: String)
        requires
            self.inv(),
        ensures
            r@ == self.spec_query_url(domain@),
    ;

    /// Turns a fetched response into the enumeration result. `records`
    /// holds the text field of each decoded record, or nothing when
    /// the body did not decode as the expected structure.
    fn process_response(&self, status_success: bool, records: Option<Vec<String>>) -> (r: Result<
        Vec<String>,
        Error,
    >)
        requires
            self.inv(),
        ensures
            r is Ok <==> (status_success && records is Some),
            r matches Err(e) ==> (e matches Error::InvalidHttpResponse(m) && m@
                == self.spec_name().spec_str()),
            r matches Ok(subs) ==> (records matches Some(recs)
                && subs.deep_view().to_set() == subdomain_pool(recs.deep_view()) && (forall|
                k1: int,
                k2: int,
            |
                0 <= k1 < k2 < subs.deep_view().len() ==> subs.deep_view()[k1]
                    != subs.deep_view()[k2])),
    ;
}

} // verus!
