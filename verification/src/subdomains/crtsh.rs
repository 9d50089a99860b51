//! Subdomain enumeration backed by the crt.sh certificate-transparency
//! source: the caller fetches the JSON records, and this module turns
//! them into a cleaned, duplicate-free collection of names.
use vstd::prelude::*;
use vstd::string::*;
use crate::enumeration::clean_subdomains;
use crate::modules::{Module, ModuleName, ModuleVersion, SubdomainModule};
use crate::report::Severity;
use crate::Error;

verus! {

pub struct Crtsh {}

impl Crtsh {
    pub fn new() -> (r: Self)
        ensures
            r.inv(),
    {
        Crtsh {  }
    }
}

impl Module for Crtsh {
    open spec fn inv(&self) -> bool {
        true
    }

    open spec fn spec_name(&self) -> ModuleName {
        ModuleName::SubdomainsCrtsh
    }

    open spec fn spec_description(&self) -> Seq<char> {
        "Use crt.sh/ to find subdomains"@
    }

    open spec fn spec_version(&self) -> ModuleVersion {
        ModuleVersion(1, 0, 0)
    }

    open spec fn spec_aggressive(&self) -> bool {
        false
    }

    open spec fn spec_severity(&self) -> Severity {
        Severity::Informative
    }

    fn name(&self) -> ModuleName {
        ModuleName::SubdomainsCrtsh
    }

    fn description(&self) -> String {
        "Use crt.sh/ to find subdomains".to_owned()
    }

    fn version(&self) -> ModuleVersion {
        ModuleVersion(1, 0, 0)
    }

    fn is_aggressive(&self) -> bool {
        false
    }

    fn severity(&self) -> Severity {
        Severity::Informative
    }
}

impl SubdomainModule for Crtsh {
    open spec fn spec_query_url(&self, domain: Seq<char>) -> Seq<char> {
        "https://crt.sh/?q=%25."@ + domain + "&output=json"@
    }

    fn query_url(&self, domain: &str) -> String {
        "https://crt.sh/?q=%25.".to_owned().concat(domain).concat("&output=json")
    }

    fn process_response(&self, status_success: bool, records: Option<Vec<String>>) -> (r: Result<
        Vec<String>,
        Error,
    >) {
        if !status_success {
            return Err(Error::InvalidHttpResponse(self.name().as_str().to_owned()));
        }
        match records {
            Some(recs) => Ok(clean_subdomains(&recs)),
            None => Err(Error::InvalidHttpResponse(self.name().as_str().to_owned())),
        }
    }
}

} // verus!
