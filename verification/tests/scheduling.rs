use phaser::http::ds_store_disclosure::DsStoreDisclosure;
use phaser::http::git_config_disclosure::GitConfigDisclosure;
use phaser::http::traefik_dashboard_unauthenticated_access::TraefikDashboardUnauthenticatedAccess;
use phaser::modules::{Module, ModuleName, ModuleVersion};
use phaser::registry::{
    HttpModuleInstance, ModuleCategory, Registry, SubdomainModuleInstance,
};
use phaser::report::{ExecutionError, Finding, ModuleResult, Severity};
use phaser::scheduler::{
    aggregate_http, aggregate_subdomains, plan_http_tasks, plan_subdomain_tasks, HttpOutcome,
    SubdomainOutcome, Target,
};
use phaser::subdomains::crtsh::Crtsh;
use phaser::Error;

fn full_registry() -> Registry {
    let mut reg = Registry::new();
    reg.register_http(HttpModuleInstance::DsStore(DsStoreDisclosure::new()))
        .unwrap();
    reg.register_http(HttpModuleInstance::GitConfig(
        GitConfigDisclosure::new().unwrap(),
    ))
    .unwrap();
    reg.register_http(HttpModuleInstance::Traefik(
        TraefikDashboardUnauthenticatedAccess::new(),
    ))
    .unwrap();
    reg.register_subdomain(SubdomainModuleInstance::Crtsh(Crtsh::new()))
        .unwrap();
    reg
}

#[test]
fn duplicate_registration_is_fatal() {
    let mut reg = Registry::new();
    reg.register_http(HttpModuleInstance::DsStore(DsStoreDisclosure::new()))
        .unwrap();
    let r = reg.register_http(HttpModuleInstance::DsStore(DsStoreDisclosure::new()));
    assert_eq!(
        r,
        Err(Error::DuplicateModule(ModuleName::HttpDsStoreDisclosure))
    );
}

#[test]
fn listing_filters_by_category() {
    let reg = full_registry();
    let http = reg.list_modules(ModuleCategory::Http, false);
    assert_eq!(http.len(), 3);
    assert_eq!(http[0].name, ModuleName::HttpDsStoreDisclosure);
    assert_eq!(http[1].name, ModuleName::HttpGitConfigDisclosure);
    assert_eq!(
        http[2].name,
        ModuleName::HttpTraefikDashboardUnauthenticatedAccess
    );
    // None of the registered modules is aggressive, so opting in
    // changes nothing.
    assert_eq!(reg.list_modules(ModuleCategory::Http, true), http);

    let subs = reg.list_modules(ModuleCategory::Subdomains, false);
    assert_eq!(subs.len(), 1);
    assert_eq!(subs[0].name, ModuleName::SubdomainsCrtsh);
    assert_eq!(subs[0].severity, Severity::Informative);
    assert_eq!(subs[0].aggressive, false);
}

#[test]
fn planning_routes_by_target_category() {
    let reg = full_registry();
    let targets = vec![
        Target::Endpoint("http://a.test".to_string()),
        Target::Domain("a.test".to_string()),
        Target::Endpoint("http://b.test".to_string()),
    ];

    // 3 HTTP modules x 2 endpoint targets.
    let http_tasks = plan_http_tasks(&reg, &targets, false);
    assert_eq!(http_tasks.len(), 6);
    for t in &http_tasks {
        assert!(t.module_index < 3);
        assert!(t.target_index == 0 || t.target_index == 2);
    }

    // 1 enumeration module x 1 domain target.
    let sub_tasks = plan_subdomain_tasks(&reg, &targets, false);
    assert_eq!(sub_tasks.len(), 1);
    assert_eq!(sub_tasks[0].module_index, 0);
    assert_eq!(sub_tasks[0].target_index, 1);
}

fn sample_finding(url: &str) -> Finding {
    Finding {
        module: ModuleName::HttpDsStoreDisclosure,
        module_version: ModuleVersion(1, 0, 0),
        severity: Severity::Medium,
        result: ModuleResult::Url(url.to_string()),
    }
}

fn sample_error(target: &str) -> ExecutionError {
    ExecutionError {
        module: ModuleName::HttpGitConfigDisclosure,
        target: target.to_string(),
        cause: Error::Transport("connection timed out".to_string()),
    }
}

#[test]
fn one_failure_leaves_other_outcomes_alone() {
    let all_good = vec![
        HttpOutcome::Completed(Some(sample_finding("http://a.test/.DS_Store"))),
        HttpOutcome::Completed(Some(sample_finding("http://b.test/.DS_Store"))),
        HttpOutcome::Completed(None),
    ];
    let (findings, errors) = aggregate_http(&all_good);
    assert_eq!(findings.len(), 2);
    assert_eq!(errors.len(), 0);

    // Force the second task to fail: every other task's contribution
    // is unchanged, and exactly one error is recorded.
    let one_failed = vec![
        HttpOutcome::Completed(Some(sample_finding("http://a.test/.DS_Store"))),
        HttpOutcome::Failed(sample_error("http://b.test")),
        HttpOutcome::Completed(None),
    ];
    let (findings2, errors2) = aggregate_http(&one_failed);
    assert_eq!(findings2, vec![sample_finding("http://a.test/.DS_Store")]);
    assert_eq!(errors2, vec![sample_error("http://b.test")]);
}

#[test]
fn subdomain_aggregation_unions_and_keeps_errors() {
    let outcomes = vec![
        SubdomainOutcome::Completed(vec![
            "a.example.com".to_string(),
            "b.example.com".to_string(),
        ]),
        SubdomainOutcome::Failed(sample_error("example.org")),
        SubdomainOutcome::Completed(vec![
            "b.example.com".to_string(),
            "c.example.com".to_string(),
        ]),
    ];
    let (names, errors) = aggregate_subdomains(&outcomes);
    assert_eq!(names.len(), 3);
    assert!(names.contains(&"a.example.com".to_string()));
    assert!(names.contains(&"b.example.com".to_string()));
    assert!(names.contains(&"c.example.com".to_string()));
    assert_eq!(errors, vec![sample_error("example.org")]);
}
