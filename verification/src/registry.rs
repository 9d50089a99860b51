//! The module registry: holds the constructed module instances,
//! rejects duplicate registrations at startup, and lists modules
//! filtered by capability category and aggressiveness.
use vstd::prelude::*;
use crate::http::ds_store_disclosure::DsStoreDisclosure;
use crate::http::git_config_disclosure::GitConfigDisclosure;
use crate::http::traefik_dashboard_unauthenticated_access::TraefikDashboardUnauthenticatedAccess;
use crate::modules::{
    eligible, eligible_modules, HttpModule, Module, ModuleName, ModuleVersion, SubdomainModule,
};
use crate::report::{Finding, Severity};
use crate::subdomains::crtsh::Crtsh;
use crate::Error;

verus! {

/// The closed set of request-response modules, dispatched by tag.
pub enum HttpModuleInstance {
    DsStore(DsStoreDisclosure),
    GitConfig(GitConfigDisclosure),
    Traefik(TraefikDashboardUnauthenticatedAccess),
}

impl Module for HttpModuleInstance {
    open spec fn inv(&self) -> bool {
        match self {
            HttpModuleInstance::DsStore(m) => m.inv(),
            HttpModuleInstance::GitConfig(m) => m.inv(),
            HttpModuleInstance::Traefik(m) => m.inv(),
        }
    }

    open spec fn spec_name(&self) -> ModuleName {
        match self {
            HttpModuleInstance::DsStore(m) => m.spec_name(),
            HttpModuleInstance::GitConfig(m) => m.spec_name(),
            HttpModuleInstance::Traefik(m) => m.spec_name(),
        }
    }

    open spec fn spec_description(&self) -> Seq<char> {
        match self {
            HttpModuleInstance::DsStore(m) => m.spec_description(),
            HttpModuleInstance::GitConfig(m) => m.spec_description(),
            HttpModuleInstance::Traefik(m) => m.spec_description(),
        }
    }

    open spec fn spec_version(&self) -> ModuleVersion {
        match self {
            HttpModuleInstance::DsStore(m) => m.spec_version(),
            HttpModuleInstance::GitConfig(m) => m.spec_version(),
            HttpModuleInstance::Traefik(m) => m.spec_version(),
        }
    }

    open spec fn spec_aggressive(&self) -> bool {
        match self {
            HttpModuleInstance::DsStore(m) => m.spec_aggressive(),
            HttpModuleInstance::GitConfig(m) => m.spec_aggressive(),
            HttpModuleInstance::Traefik(m) => m.spec_aggressive(),
        }
    }

    open spec fn spec_severity(&self) -> Severity {
        match self {
            HttpModuleInstance::DsStore(m) => m.spec_severity(),
            HttpModuleInstance::GitConfig(m) => m.spec_severity(),
            HttpModuleInstance::Traefik(m) => m.spec_severity(),
        }
    }

    fn name(&self) -> ModuleName {
        match self {
            HttpModuleInstance::DsStore(m) => m.name(),
            HttpModuleInstance::GitConfig(m) => m.name(),
            HttpModuleInstance::Traefik(m) => m.name(),
        }
    }

    fn description(&self) -> String {
        match self {
            HttpModuleInstance::DsStore(m) => m.description(),
            HttpModuleInstance::GitConfig(m) => m.description(),
            HttpModuleInstance::Traefik(m) => m.description(),
        }
    }

    fn version(&self) -> ModuleVersion {
        match self {
            HttpModuleInstance::DsStore(m) => m.version(),
            HttpModuleInstance::GitConfig(m) => m.version(),
            HttpModuleInstance::Traefik(m) => m.version(),
        }
    }

    fn is_aggressive(&self) -> bool {
        match self {
            HttpModuleInstance::DsStore(m) => m.is_aggressive(),
            HttpModuleInstance::GitConfig(m) => m.is_aggressive(),
            HttpModuleInstance::Traefik(m) => m.is_aggressive(),
        }
    }

    fn severity(&self) -> Severity {
        match self {
            HttpModuleInstance::DsStore(m) => m.severity(),
            HttpModuleInstance::GitConfig(m) => m.severity(),
            HttpModuleInstance::Traefik(m) => m.severity(),
        }
    }
}

impl HttpModule for HttpModuleInstance {
    open spec fn spec_url(&self, endpoint: Seq<char>) -> Seq<char> {
        match self {
            HttpModuleInstance::DsStore(m) => m.spec_url(endpoint),
            HttpModuleInstance::GitConfig(m) => m.spec_url(endpoint),
            HttpModuleInstance::Traefik(m) => m.spec_url(endpoint),
        }
    }

    open spec fn positive(&self, body_bytes: Seq<u8>, body_text: Seq<char>) -> bool {
        match self {
            HttpModuleInstance::DsStore(m) => m.positive(body_bytes, body_text),
            HttpModuleInstance::GitConfig(m) => m.positive(body_bytes, body_text),
            HttpModuleInstance::Traefik(m) => m.positive(body_bytes, body_text),
        }
    }

    fn candidate_url(&self, endpoint: &str) -> String {
        match self {
            HttpModuleInstance::DsStore(m) => m.candidate_url(endpoint),
            HttpModuleInstance::GitConfig(m) => m.candidate_url(endpoint),
            HttpModuleInstance::Traefik(m) => m.candidate_url(endpoint),
        }
    }

    fn classify(&self, url: String, status_success: bool, body_bytes: &[u8], body_text: &str) -> (r:
        Option<Finding>) {
        match self {
            HttpModuleInstance::DsStore(m) => m.classify(url, status_success, body_bytes, body_text),
            HttpModuleInstance::GitConfig(m) => m.classify(
                url,
                status_success,
                body_bytes,
                body_text,
            ),
            HttpModuleInstance::Traefik(m) => m.classify(url, status_success, body_bytes, body_text),
        }
    }
}

/// The closed set of enumeration modules, dispatched by tag.
pub enum SubdomainModuleInstance {
    Crtsh(Crtsh),
}

impl Module for SubdomainModuleInstance {
    open spec fn inv(&self) -> bool {
        match self {
            SubdomainModuleInstance::Crtsh(m) => m.inv(),
        }
    }

    open spec fn spec_name(&self) -> ModuleName {
        match self {
            SubdomainModuleInstance::Crtsh(m) => m.spec_name(),
        }
    }

    open spec fn spec_description(&self) -> Seq<char> {
        match self {
            SubdomainModuleInstance::Crtsh(m) => m.spec_description(),
        }
    }

    open spec fn spec_version(&self) -> ModuleVersion {
        match self {
            SubdomainModuleInstance::Crtsh(m) => m.spec_version(),
        }
    }

    open spec fn spec_aggressive(&self) -> bool {
        match self {
            SubdomainModuleInstance::Crtsh(m) => m.spec_aggressive(),
        }
    }

    open spec fn spec_severity(&self) -> Severity {
        match self {
            SubdomainModuleInstance::Crtsh(m) => m.spec_severity(),
        }
    }

    fn name(&self) -> ModuleName {
        match self {
            SubdomainModuleInstance::Crtsh(m) => m.name(),
        }
    }

    fn description(&self) -> String {
        match self {
            SubdomainModuleInstance::Crtsh(m) => m.description(),
        }
    }

    fn version(&self) -> ModuleVersion {
        match self {
            SubdomainModuleInstance::Crtsh(m) => m.version(),
        }
    }

    fn is_aggressive(&self) -> bool {
        match self {
            SubdomainModuleInstance::Crtsh(m) => m.is_aggressive(),
        }
    }

    fn severity(&self) -> Severity {
        match self {
            SubdomainModuleInstance::Crtsh(m) => m.severity(),
        }
    }
}

impl SubdomainModule for SubdomainModuleInstance {
    open spec fn spec_query_url(&self, domain: Seq<char>) -> Seq<char> {
        match self {
            SubdomainModuleInstance::Crtsh(m) => m.spec_query_url(domain),
        }
    }

    fn query_url(&self, domain: &str) -> String {
        match self {
            SubdomainModuleInstance::Crtsh(m) => m.query_url(domain),
        }
    }

    fn process_response(&self, status_success: bool, records: Option<Vec<String>>) -> (r: Result<
        Vec<String>,
        Error,
    >) {
        match self {
            SubdomainModuleInstance::Crtsh(m) => m.process_response(status_success, records),
        }
    }
}

/// Capability categories a module can belong to.
#[derive(Clone, Copy, Debug, PartialEq, Eq, Structural)]
pub enum ModuleCategory {
    Http,
    Subdomains,
}

/// The metadata of one registered module, as listed to callers.
#[derive(Clone, Debug, PartialEq, Eq)]
pub struct ModuleInfo {
    pub name: ModuleName,
    pub description: String,
    pub version: ModuleVersion,
    pub severity: Severity,
    pub aggressive: bool,
}

/// The listed metadata reproduces the module's own.
pub open spec fn info_matches<M: Module>(info: ModuleInfo, m: M) -> bool {
    &&& info.name == m.spec_name()
    &&& info.description@ == m.spec_description()
    &&& info.version == m.spec_version()
    &&& info.severity == m.spec_severity()
    &&& info.aggressive == m.spec_aggressive()
}

/// Holds the module instances of a run. Construction happens once per
/// run; a duplicate name is a fatal configuration error detected at
/// registration, before any scanning.
pub struct Registry {
    http: Vec<HttpModuleInstance>,
    subdomains: Vec<SubdomainModuleInstance>,
}

impl Registry {
    pub closed spec fn http_modules(&self) -> Seq<HttpModuleInstance> {
        self.http@
    }

    pub closed spec fn subdomain_modules(&self) -> Seq<SubdomainModuleInstance> {
        self.subdomains@
    }

    /// Every registered module is well formed and no name occurs
    /// twice within a category.
    pub open spec fn wf(&self) -> bool {
        &&& forall|k: int|
            0 <= k < self.http_modules().len() ==> (#[trigger] self.http_modules()[k]).inv()
        &&& forall|k: int|
            0 <= k < self.subdomain_modules().len() ==> (
            #[trigger] self.subdomain_modules()[k]).inv()
        &&& forall|k1: int, k2: int|
            0 <= k1 < k2 < self.http_modules().len() ==> self.http_modules()[k1].spec_name()
                != self.http_modules()[k2].spec_name()
        &&& forall|k1: int, k2: int|
            0 <= k1 < k2 < self.subdomain_modules().len()
                ==> self.subdomain_modules()[k1].spec_name()
                != self.subdomain_modules()[k2].spec_name()
    }

    pub fn new() -> (r: Registry)
        ensures
            r.wf(),
            r.http_modules().len() == 0,
            r.subdomain_modules().len() == 0,
    {
        Registry { http: Vec::new(), subdomains: Vec::new() }
    }

    pub fn http_len(&self) -> (r: usize)
        ensures
            r == self.http_modules().len(),
    {
        self.http.len()
    }

    pub fn subdomain_len(&self) -> (r: usize)
        ensures
            r == self.subdomain_modules().len(),
    {
        self.subdomains.len()
    }

    pub fn http_module(&self, i: usize) -> (r: &HttpModuleInstance)
        requires
            i < self.http_modules().len(),
        ensures
            *r == self.http_modules()[i as int],
    {
        &self.http[i]
    }

    pub fn subdomain_module(&self, i: usize) -> (r: &SubdomainModuleInstance)
        requires
            i < self.subdomain_modules().len(),
        ensures
            *r == self.subdomain_modules()[i as int],
    {
        &self.subdomains[i]
    }

    fn http_name_taken(&self, name: ModuleName) -> (r: bool)
        ensures
            r == exists|k: int|
                0 <= k < self.http_modules().len() && (
                #[trigger] self.http_modules()[k]).spec_name() == name,
    {
        let mut i: usize = 0;
        while i < self.http.len()
            invariant
                i <= self.http_modules().len(),
                forall|k: int|
                    0 <= k < i ==> (#[trigger] self.http_modules()[k]).spec_name() != name,
            decreases self.http_modules().len() - i,
        {
            if self.http[i].name() == name {
                return true;
            }
            i = i + 1;
        }
        false
    }

    fn subdomain_name_taken(&self, name: ModuleName) -> (r: bool)
        ensures
            r == exists|k: int|
                0 <= k < self.subdomain_modules().len() && (
                #[trigger] self.subdomain_modules()[k]).spec_name() == name,
    {
        let mut i: usize = 0;
        while i < self.subdomains.len()
            invariant
                i <= self.subdomain_modules().len(),
                forall|k: int|
                    0 <= k < i ==> (#[trigger] self.subdomain_modules()[k]).spec_name() != name,
            decreases self.subdomain_modules().len() - i,
        {
            if self.subdomains[i].name() == name {
                return true;
            }
            i = i + 1;
        }
        false
    }

    /// Registers a request-response module; a duplicate name is
    /// rejected and leaves the registry unchanged.
    pub fn register_http(&mut self, m: HttpModuleInstance) -> (r: Result<(), Error>)
        requires
            old(self).wf(),
            m.inv(),
        ensures
            final(self).wf(),
            final(self).subdomain_modules() == old(self).subdomain_modules(),
            (r is Ok <==> forall|k: int|
                0 <= k < old(self).http_modules().len() ==> (
                #[trigger] old(self).http_modules()[k]).spec_name() != m.spec_name()),
            r is Ok ==> final(self).http_modules() == old(self).http_modules().push(m),
            r matches Err(e) ==> (final(self).http_modules() == old(self).http_modules() && e
                == Error::DuplicateModule(m.spec_name())),
    {
        let name = m.name();
        if self.http_name_taken(name) {
            return Err(Error::DuplicateModule(name));
        }
        self.http.push(m);
        proof {
            assert(self.subdomain_modules() == old(self).subdomain_modules());
            assert forall|k: int|
                0 <= k < self.subdomain_modules().len() implies (
            #[trigger] self.subdomain_modules()[k]).inv() by {
                assert(old(self).subdomain_modules()[k].inv());
            }
            let ms = self.http_modules();
            assert(ms =~= old(self).http_modules().push(m));
            assert forall|k1: int, k2: int|
                0 <= k1 < k2 < ms.len() implies ms[k1].spec_name() != ms[k2].spec_name() by {
                if k2 < ms.len() - 1 {
                    assert(old(self).http_modules()[k1].spec_name() != old(
                        self,
                    ).http_modules()[k2].spec_name());
                } else {
                    assert(ms[k1] == old(self).http_modules()[k1]);
                    assert(ms[k2] == m);
                }
            }
            assert forall|k: int| 0 <= k < ms.len() implies (#[trigger] ms[k]).inv() by {
                if k < ms.len() - 1 {
                    assert(old(self).http_modules()[k].inv());
                } else {
                    assert(ms[k] == m);
                }
            }
        }
        Ok(())
    }

    /// Registers an enumeration module; a duplicate name is rejected
    /// and leaves the registry unchanged.
    pub fn register_subdomain(&mut self, m: SubdomainModuleInstance) -> (r: Result<(), Error>)
        requires
            old(self).wf(),
            m.inv(),
        ensures
            final(self).wf(),
            final(self).http_modules() == old(self).http_modules(),
            (r is Ok <==> forall|k: int|
                0 <= k < old(self).subdomain_modules().len() ==> (
                #[trigger] old(self).subdomain_modules()[k]).spec_name() != m.spec_name()),
            r is Ok ==> final(self).subdomain_modules() == old(self).subdomain_modules().push(m),
            r matches Err(e) ==> (final(self).subdomain_modules() == old(self).subdomain_modules()
                && e == Error::DuplicateModule(m.spec_name())),
    {
        let name = m.name();
        if self.subdomain_name_taken(name) {
            return Err(Error::DuplicateModule(name));
        }
        self.subdomains.push(m);
        proof {
            assert(self.http_modules() == old(self).http_modules());
            assert forall|k: int|
                0 <= k < self.http_modules().len() implies (
            #[trigger] self.http_modules()[k]).inv() by {
                assert(old(self).http_modules()[k].inv());
            }
            let ms = self.subdomain_modules();
            assert(ms =~= old(self).subdomain_modules().push(m));
            assert forall|k1: int, k2: int|
                0 <= k1 < k2 < ms.len() implies ms[k1].spec_name() != ms[k2].spec_name() by {
                if k2 < ms.len() - 1 {
                    assert(old(self).subdomain_modules()[k1].spec_name() != old(
                        self,
                    ).subdomain_modules()[k2].spec_name());
                } else {
                    assert(ms[k1] == old(self).subdomain_modules()[k1]);
                    assert(ms[k2] == m);
                }
            }
            assert forall|k: int| 0 <= k < ms.len() implies (#[trigger] ms[k]).inv() by {
                if k < ms.len() - 1 {
                    assert(old(self).subdomain_modules()[k].inv());
                } else {
                    assert(ms[k] == m);
                }
            }
        }
        Ok(())
    }

    /// Lists the registered modules of a category in registration
    /// order, excluding aggressive modules unless opted in.
    pub fn list_modules(&self, category: ModuleCategory, include_aggressive: bool) -> (r: Vec<
        ModuleInfo,
    >)
        ensures
            category is Http ==> ({
                let sel = eligible_modules(self.http_modules(), include_aggressive);
                &&& r@.len() == sel.len()
                &&& forall|k: int| 0 <= k < r@.len() ==> info_matches(#[trigger] r@[k], sel[k])
            }),
            category is Subdomains ==> ({
                let sel = eligible_modules(self.subdomain_modules(), include_aggressive);
                &&& r@.len() == sel.len()
                &&& forall|k: int| 0 <= k < r@.len() ==> info_matches(#[trigger] r@[k], sel[k])
            }),
    {
        let mut out: Vec<ModuleInfo> = Vec::new();
        match category {
            ModuleCategory::Http => {
                proof {
                    assert(self.http_modules().take(0) =~= Seq::<HttpModuleInstance>::empty());
                }
                let mut i: usize = 0;
                while i < self.http.len()
                    invariant
                        i <= self.http_modules().len(),
                        out@.len() == eligible_modules(
                            self.http_modules().take(i as int),
                            include_aggressive,
                        ).len(),
                        forall|k: int|
                            0 <= k < out@.len() ==> info_matches(
                                #[trigger] out@[k],
                                eligible_modules(
                                    self.http_modules().take(i as int),
                                    include_aggressive,
                                )[k],
                            ),
                    decreases self.http_modules().len() - i,
                {
                    let m = &self.http[i];
                    if include_aggressive || !m.is_aggressive() {
                        out.push(
                            ModuleInfo {
                                name: m.name(),
                                description: m.description(),
                                version: m.version(),
                                severity: m.severity(),
                                aggressive: m.is_aggressive(),
                            },
                        );
                    }
                    proof {
                        let mk = self.http_modules().take(i as int + 1);
                        assert(mk.drop_last() =~= self.http_modules().take(i as int));
                        assert(mk.last() == self.http_modules()[i as int]);
                    }
                    i = i + 1;
                }
                proof {
                    assert(self.http_modules().take(self.http_modules().len() as int)
                        =~= self.http_modules());
                }
            },
            ModuleCategory::Subdomains => {
                proof {
                    assert(self.subdomain_modules().take(0) =~= Seq::<
                        SubdomainModuleInstance,
                    >::empty());
                }
                let mut i: usize = 0;
                while i < self.subdomains.len()
                    invariant
                        i <= self.subdomain_modules().len(),
                        out@.len() == eligible_modules(
                            self.subdomain_modules().take(i as int),
                            include_aggressive,
                        ).len(),
                        forall|k: int|
                            0 <= k < out@.len() ==> info_matches(
                                #[trigger] out@[k],
                                eligible_modules(
                                    self.subdomain_modules().take(i as int),
                                    include_aggressive,
                                )[k],
                            ),
                    decreases self.subdomain_modules().len() - i,
                {
                    let m = &self.subdomains[i];
                    if include_aggressive || !m.is_aggressive() {
                        out.push(
                            ModuleInfo {
                                name: m.name(),
                                description: m.description(),
                                version: m.version(),
                                severity: m.severity(),
                                aggressive: m.is_aggressive(),
                            },
                        );
                    }
                    proof {
                        let mk = self.subdomain_modules().take(i as int + 1);
                        assert(mk.drop_last() =~= self.subdomain_modules().take(i as int));
                        assert(mk.last() == self.subdomain_modules()[i as int]);
                    }
                    i = i + 1;
                }
                proof {
                    assert(self.subdomain_modules().take(self.subdomain_modules().len() as int)
                        =~= self.subdomain_modules());
                }
            },
        }
        out
    }
}

} // verus!
