//! Checks whether an endpoint serves the Traefik dashboard without
//! authentication, recognised by a multi-substring heuristic on the
//! body text.
use vstd::prelude::*;
use vstd::string::*;
use crate::heuristics::{heuristic_match, policy_match};
use crate::modules::{HttpModule, Module, ModuleName, ModuleVersion};
use crate::report::{Finding, ModuleResult, Severity};

verus! {

/// The heuristic policy: either all three dashboard markers occur, or
/// the standalone page-header marker occurs.
pub open spec fn traefik_policy() -> Seq<Seq<Seq<char>>> {
    seq![
        seq![
            r#"ng-app="traefik""#@,
            r#"href="https://docs.traefik.io""#@,
            r#"href="https://traefik.io""#@,
        ],
        seq![r#"fixed-top"><head><meta charset="utf-8"><title>Traefik</title><base"#@],
    ]
}

pub struct TraefikDashboardUnauthenticatedAccess {
    policy: Vec<Vec<String>>,
}

impl TraefikDashboardUnauthenticatedAccess {
    /// Builds the fixed substring policy once at construction; it is
    /// immutable afterwards and shared across all scans.
    pub fn new() -> (r: Self)
        ensures
            r.inv(),
    {
        let mut set1: Vec<String> = Vec::new();
        set1.push(r#"ng-app="traefik""#.to_owned());
        set1.push(r#"href="https://docs.traefik.io""#.to_owned());
        set1.push(r#"href="https://traefik.io""#.to_owned());
        let mut set2: Vec<String> = Vec::new();
        set2.push(r#"fixed-top"><head><meta charset="utf-8"><title>Traefik</title><base"#.to_owned());
        let mut policy: Vec<Vec<String>> = Vec::new();
        policy.push(set1);
        policy.push(set2);
        proof {
            assert(policy.deep_view().len() == 2);
            assert(policy.deep_view()[0] =~= traefik_policy()[0]);
            assert(policy.deep_view()[1] =~= traefik_policy()[1]);
            assert(policy.deep_view() =~~= traefik_policy());
        }
        TraefikDashboardUnauthenticatedAccess { policy }
    }
}

impl Module for TraefikDashboardUnauthenticatedAccess {
    closed spec fn inv(&self) -> bool {
        self.policy.deep_view() == traefik_policy()
    }

    open spec fn spec_name(&self) -> ModuleName {
        ModuleName::HttpTraefikDashboardUnauthenticatedAccess
    }

    open spec fn spec_description(&self) -> Seq<char> {
        "Check for Traefik Dashboard Unauthenticated Access"@
    }

    open spec fn spec_version(&self) -> ModuleVersion {
        ModuleVersion(1, 0, 0)
    }

    open spec fn spec_aggressive(&self) -> bool {
        false
    }

    open spec fn spec_severity(&self) -> Severity {
        Severity::High
    }

    fn name(&self) -> ModuleName {
        ModuleName::HttpTraefikDashboardUnauthenticatedAccess
    }

    fn description(&self) -> String {
        "Check for Traefik Dashboard Unauthenticated Access".to_owned()
    }

    fn version(&self) -> ModuleVersion {
        ModuleVersion(1, 0, 0)
    }

    fn is_aggressive(&self) -> bool {
        false
    }

    fn severity(&self) -> Severity {
        Severity::High
    }
}

impl HttpModule for TraefikDashboardUnauthenticatedAccess {
    open spec fn spec_url(&self, endpoint: Seq<char>) -> Seq<char> {
        endpoint
    }

    open spec fn positive(&self, body_bytes: Seq<u8>, body_text: Seq<char>) -> bool {
        policy_match(traefik_policy(), body_text)
    }

    fn candidate_url(&self, endpoint: &str) -> (r: String) {
        let r = endpoint.to_owned();
        proof {
            assert(r@ =~= self.spec_url(endpoint@));
        }
        r
    }

    fn classify(&self, url: String, status_success: bool, body_bytes: &[u8], body_text: &str) -> (r:
        Option<Finding>) {
        if status_success && heuristic_match(&self.policy, body_text) {
            Some(
                Finding {
                    module: ModuleName::HttpTraefikDashboardUnauthenticatedAccess,
                    module_version: ModuleVersion(1, 0, 0),
                    severity: Severity::High,
                    result: ModuleResult::Url(url),
                },
            )
        } else {
            None
        }
    }
}

} // verus!
