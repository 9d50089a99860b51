//! Checks whether an endpoint discloses its `.git/config` file,
//! recognised by a branch-section header in the body text.
use vstd::prelude::*;
use vstd::string::*;
use crate::modules::{HttpModule, Module, ModuleName, ModuleVersion};
use crate::pattern::{regex_compiles, regex_match, CompiledRegex};
use crate::report::{Finding, ModuleResult, Severity};
use crate::Error;

verus! {

/// The pattern a git configuration file is recognised by: a
/// `[branch "..."]` section header.
pub open spec fn git_config_pattern() -> Seq<char> {
    r#"\[branch "[^"]*"\]"#@
}

pub struct GitConfigDisclosure {
    git_config_regex: CompiledRegex,
}

impl GitConfigDisclosure {
    /// Compiles the fixed pattern once; it is immutable and shared
    /// afterwards. Construction succeeds exactly when the pattern
    /// compiles, so a pattern-compilation failure is a fatal
    /// construction error, reported before any scanning begins.
    pub fn new() -> (r: Result<Self, Error>)
        ensures
            r is Ok <==> regex_compiles(git_config_pattern()),
            r matches Ok(m) ==> m.inv(),
            r matches Err(e) ==> e == Error::PatternCompilation,
    {
        match CompiledRegex::compile(r#"\[branch "[^"]*"\]"#) {
            Some(git_config_regex) => Ok(GitConfigDisclosure { git_config_regex }),
            None => Err(Error::PatternCompilation),
        }
    }

    /// Whether the body text looks like a git configuration file.
    pub fn is_git_config_file(&self, content: &str) -> (r: bool)
        requires
            self.inv(),
        ensures
            r == regex_match(git_config_pattern(), content@),
    {
        self.git_config_regex.is_match(content)
    }
}

impl Module for GitConfigDisclosure {
    closed spec fn inv(&self) -> bool {
        self.git_config_regex.spec_pattern() == git_config_pattern()
    }

    open spec fn spec_name(&self) -> ModuleName {
        ModuleName::HttpGitConfigDisclosure
    }

    open spec fn spec_description(&self) -> Seq<char> {
        "Check for .git/config file disclosure"@
    }

    open spec fn spec_version(&self) -> ModuleVersion {
        ModuleVersion(1, 0, 0)
    }

    open spec fn spec_aggressive(&self) -> bool {
        false
    }

    open spec fn spec_severity(&self) -> Severity {
        Severity::High
    }

    fn name(&self) -> ModuleName {
        ModuleName::HttpGitConfigDisclosure
    }

    fn description(&self) -> String {
        "Check for .git/config file disclosure".to_owned()
    }

    fn version(&self) -> ModuleVersion {
        ModuleVersion(1, 0, 0)
    }

    fn is_aggressive(&self) -> bool {
        false
    }

    fn severity(&self) -> Severity {
        Severity::High
    }
}

impl HttpModule for GitConfigDisclosure {
    open spec fn spec_url(&self, endpoint: Seq<char>) -> Seq<char> {
        endpoint + "/.git/config"@
    }

    open spec fn positive(&self, body_bytes: Seq<u8>, body_text: Seq<char>) -> bool {
        regex_match(git_config_pattern(), body_text)
    }

    fn candidate_url(&self, endpoint: &str) -> String {
        endpoint.to_owned().concat("/.git/config")
    }

    fn classify(&self, url: String, status_success: bool, body_bytes: &[u8], body_text: &str) -> (r:
        Option<Finding>) {
        if status_success && self.is_git_config_file(body_text) {
            Some(
                Finding {
                    module: ModuleName::HttpGitConfigDisclosure,
                    module_version: ModuleVersion(1, 0, 0),
                    severity: Severity::High,
                    result: ModuleResult::Url(url),
                },
            )
        } else {
            None
        }
    }
}

} // verus!
