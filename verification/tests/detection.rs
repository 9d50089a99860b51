use phaser::http::ds_store_disclosure::{is_ds_store as ds_store_check, DsStoreDisclosure};
use phaser::http::git_config_disclosure::GitConfigDisclosure;
use phaser::http::traefik_dashboard_unauthenticated_access::TraefikDashboardUnauthenticatedAccess;
use phaser::heuristics::heuristic_match;
use phaser::modules::{HttpModule, Module, ModuleName, ModuleVersion};
use phaser::report::{ModuleResult, Severity};

#[test]
fn is_ds_store() {
    let body = "testtesttest";
    let body2 = [
        0x00, 0x00, 0x00, 0x01, 0x42, 0x75, 0x64, 0x31, 0x00, 0x00, 0x30, 0x00, 0x00, 0x00, 0x08,
        0x0,
    ];

    assert_eq!(false, ds_store_check(body.as_bytes()));
    assert_eq!(true, ds_store_check(&body2));
}

#[test]
fn short_bodies_are_negative() {
    assert_eq!(false, ds_store_check(&[]));
    // The first seven bytes of the signature itself are not enough.
    assert_eq!(false, ds_store_check(&[0x00, 0x00, 0x00, 0x01, 0x42, 0x75, 0x64]));
}

#[test]
fn exact_signature_is_positive() {
    assert_eq!(true, ds_store_check(&[0x00, 0x00, 0x00, 0x01, 0x42, 0x75, 0x64, 0x31]));
    // One byte off anywhere in the prefix is negative.
    assert_eq!(false, ds_store_check(&[0x01, 0x00, 0x00, 0x01, 0x42, 0x75, 0x64, 0x31, 0xff]));
}

#[test]
fn ds_store_classify_requires_success_status() {
    let module = DsStoreDisclosure::new();
    let sig = [0x00, 0x00, 0x00, 0x01, 0x42, 0x75, 0x64, 0x31];
    let url = module.candidate_url("http://example.com");
    assert_eq!(url, "http://example.com/.DS_Store");

    let negative = module.classify(url.clone(), false, &sig, "");
    assert!(negative.is_none());

    let positive = module.classify(url.clone(), true, &sig, "").unwrap();
    assert_eq!(positive.module, ModuleName::HttpDsStoreDisclosure);
    assert_eq!(positive.module_version, ModuleVersion(1, 0, 0));
    assert_eq!(positive.severity, Severity::Medium);
    assert_eq!(positive.result, ModuleResult::Url(url));
}

#[test]
fn git_config_construction_succeeds() {
    // The fixed pattern compiles, so construction is owed an Ok.
    assert!(GitConfigDisclosure::new().is_ok());
}

#[test]
fn is_git_directory() {
    let module = GitConfigDisclosure::new().unwrap();

    let body = r#"[core]
        repositoryformatversion = 0
        filemode = true
        bare = false
        logallrefupdates = true
        ignorecase = true
        precomposeunicode = true
[remote "origin"]
        url = git@github.com:skerkour/black-hat-rust.git
        fetch = +refs/heads/*:refs/remotes/origin/*
[branch "master"]
        remote = origin
        merge = refs/heads/master"#;

    let body2 = "test test test test tes  <tle>Index of kerkour.fr</title> test";

    assert_eq!(true, module.is_git_config_file(body));
    assert_eq!(false, module.is_git_config_file(body2));
}

#[test]
fn git_config_classify_builds_candidate_url() {
    let module = GitConfigDisclosure::new().unwrap();
    let url = module.candidate_url("https://target.test");
    assert_eq!(url, "https://target.test/.git/config");

    let finding = module
        .classify(url.clone(), true, &[], "x [branch \"main\"] y")
        .unwrap();
    assert_eq!(finding.module, ModuleName::HttpGitConfigDisclosure);
    assert_eq!(finding.severity, Severity::High);
    assert_eq!(finding.result, ModuleResult::Url(url.clone()));

    assert!(module.classify(url, true, &[], "[branch master]").is_none());
}

#[test]
fn traefik_heuristic_cases() {
    let module = TraefikDashboardUnauthenticatedAccess::new();
    let url = module.candidate_url("http://10.0.0.1:8080");
    assert_eq!(url, "http://10.0.0.1:8080");

    let all_three = "<html ng-app=\"traefik\"><body><a href=\"https://docs.traefik.io\">docs</a><a href=\"https://traefik.io\">site</a></body></html>";
    let alternate =
        "fixed-top\"><head><meta charset=\"utf-8\"><title>Traefik</title><base and more";
    let neither = "<html><title>Index of /</title></html>";

    let f = module.classify(url.clone(), true, &[], all_three).unwrap();
    assert_eq!(f.module, ModuleName::HttpTraefikDashboardUnauthenticatedAccess);
    assert_eq!(f.severity, Severity::High);
    assert!(module.classify(url.clone(), true, &[], alternate).is_some());
    assert!(module.classify(url.clone(), true, &[], neither).is_none());
    // Two of the three markers are not enough for the first set.
    let two_only = "ng-app=\"traefik\" href=\"https://docs.traefik.io\"";
    assert!(module.classify(url, true, &[], two_only).is_none());
}

#[test]
fn heuristic_match_is_any_full_set() {
    let policy = vec![
        vec!["alpha".to_string(), "beta".to_string()],
        vec!["gamma".to_string()],
    ];
    assert!(heuristic_match(&policy, "xx alpha yy beta zz"));
    assert!(heuristic_match(&policy, "only gamma here"));
    assert!(!heuristic_match(&policy, "alpha alone"));
    assert!(!heuristic_match(&policy, "nothing relevant"));
}

#[test]
fn module_metadata_is_fixed() {
    let ds = DsStoreDisclosure::new();
    assert_eq!(ds.name(), ModuleName::HttpDsStoreDisclosure);
    assert_eq!(ds.description(), "Check for a .DS_Store file disclosure");
    assert_eq!(ds.version(), ModuleVersion(1, 0, 0));
    assert_eq!(ds.is_aggressive(), false);
    assert_eq!(ds.severity(), Severity::Medium);

    let git = GitConfigDisclosure::new().unwrap();
    assert_eq!(git.name(), ModuleName::HttpGitConfigDisclosure);
    assert_eq!(git.severity(), Severity::High);

    assert!(Severity::Informative.rank() < Severity::Low.rank());
    assert!(Severity::Low.rank() < Severity::Medium.rank());
    assert!(Severity::Medium.rank() < Severity::High.rank());
    assert!(Severity::High.rank() < Severity::Critical.rank());
}
