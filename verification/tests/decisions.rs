use ipsecret_sync::auth::RegistryAuth;
use ipsecret_sync::cluster::{
    absent, classify, ApiFailure, IdentityRead, SecretRead, SyncError,
};
use ipsecret_sync::config::{locate, Config, ConfigFactory, Error};
use ipsecret_sync::namespace::{active, QueryError};
use ipsecret_sync::reconcile::{Change, NamespaceEvent, SecretEvent, Trigger};
use ipsecret_sync::text::{copy_all, copy_bytes, holds, same};
use ipsecret_sync::worker::{
    identity_patch, secret_manifest, secret_patch, BindAction, SecretAction, SyncWorker,
};

fn names(list: &[&str]) -> Vec<String> {
    list.iter().map(|s| s.to_string()).collect()
}

fn entry(server: &str, namespaces: &[&str]) -> Config {
    Config::new(server.to_string(), "u".to_string(), "p".to_string(), names(namespaces))
}

fn blob_of(cfg: &Config) -> String {
    RegistryAuth::new(
        cfg.username().to_string(),
        cfg.password().to_string(),
        cfg.server().to_string(),
    )
    .base64_encode()
}

fn worker() -> SyncWorker {
    SyncWorker::new("default", "docker-registry")
}

#[test]
fn selector_names_its_namespaces_only() {
    let cfg = entry("reg.example.com", &["a", "b"]);
    assert!(cfg.selects("a"));
    assert!(cfg.selects("b"));
    assert!(!cfg.selects("c"));
    assert!(!cfg.selects(""));
    assert!(!cfg.selects("*"));
}

#[test]
fn wildcard_selects_every_namespace() {
    let cfg = entry("reg.example.com", &["*"]);
    assert!(cfg.selects("a"));
    assert!(cfg.selects("never-seen-before"));
    assert!(cfg.selects(""));
    let mixed = entry("reg.example.com", &["a", "*"]);
    assert!(mixed.selects("zzz"));
}

#[test]
fn empty_selector_selects_nothing() {
    let cfg = entry("reg.example.com", &[]);
    assert!(!cfg.selects("a"));
    assert!(!cfg.selects("default"));
}

#[test]
fn entry_keeps_what_it_was_given() {
    let cfg = Config::new(
        "reg.example.com".to_string(),
        "user".to_string(),
        "pass".to_string(),
        names(&["a", "b"]),
    );
    assert_eq!(cfg.server(), "reg.example.com");
    assert_eq!(cfg.username(), "user");
    assert_eq!(cfg.password(), "pass");
    assert_eq!(cfg.namespaces(), names(&["a", "b"]));
    let copy = cfg.duplicate();
    assert_eq!(copy.server(), "reg.example.com");
    assert_eq!(copy.namespaces(), names(&["a", "b"]));
}

#[test]
fn text_helpers() {
    assert!(same("abc", "abc"));
    assert!(!same("abc", "abd"));
    assert!(!same("abc", "ab"));
    assert!(holds(&names(&["x", "y"]), "y"));
    assert!(!holds(&names(&["x", "y"]), "z"));
    assert!(!holds(&names(&[]), ""));
    assert_eq!(copy_all(&names(&["x", "y"])), names(&["x", "y"]));
    assert_eq!(copy_bytes(&vec![1u8, 2, 3]), vec![1u8, 2, 3]);
}

#[test]
fn locate_finds_the_field() {
    let data = Some(vec![
        ("other".to_string(), vec![1u8]),
        ("registry_secrets".to_string(), vec![7u8, 8, 9]),
    ]);
    assert_eq!(locate(&data, "registry_secrets"), Ok(vec![7u8, 8, 9]));
    assert_eq!(locate(&data, "other"), Ok(vec![1u8]));
}

#[test]
fn locate_reports_what_is_missing() {
    let data = Some(vec![("other".to_string(), vec![1u8])]);
    assert_eq!(locate(&data, "registry_secrets"), Err(Error::NotFound));
    assert_eq!(locate(&Some(vec![]), "registry_secrets"), Err(Error::NotFound));
    assert_eq!(locate(&None, "registry_secrets"), Err(Error::NotFound));
}

#[test]
fn worker_reads_its_own_field() {
    let w = worker();
    assert_eq!(w.cfg_ns(), "default");
    assert_eq!(w.cfg_name(), "docker-registry");
    assert_eq!(w.sa_name(), "default");
    let data = Some(vec![("registry_secrets".to_string(), b"- server: r".to_vec())]);
    assert_eq!(w.read_data(&data), Ok(b"- server: r".to_vec()));
    let wrong = Some(vec![("registry-secrets".to_string(), vec![1u8])]);
    assert_eq!(w.read_data(&wrong), Err(Error::NotFound));
    assert_eq!(w.read_data(&None), Err(Error::NotFound));
    let copy = w.duplicate();
    assert_eq!(copy.cfg_name(), "docker-registry");
}

#[test]
fn factory_keeps_its_names() {
    let f = ConfigFactory::new("docker-registry".to_string(), "default".to_string());
    assert_eq!(f.secret(), "docker-registry");
    assert_eq!(f.namespace(), "default");
}

#[test]
fn factory_finds_the_entries_in_the_record() {
    let f = ConfigFactory::new("docker-registry".to_string(), "default".to_string());
    let record = Ok(Some(vec![
        ("note".to_string(), vec![0u8]),
        ("registry_secrets".to_string(), b"[]".to_vec()),
    ]));
    assert_eq!(f.read_config(&record), Ok(b"[]".to_vec()));
}

#[test]
fn factory_tells_absence_from_failure() {
    let f = ConfigFactory::new("docker-registry".to_string(), "default".to_string());
    assert_eq!(f.read_config(&Err(ApiFailure::Status(404))), Err(Error::NotFound));
    assert_eq!(f.read_config(&Ok(None)), Err(Error::NotFound));
    assert_eq!(
        f.read_config(&Ok(Some(vec![("note".to_string(), vec![0u8])]))),
        Err(Error::NotFound)
    );
    assert_eq!(
        f.read_config(&Err(ApiFailure::Status(403))),
        Err(Error::Api(ApiFailure::Status(403)))
    );
    assert_eq!(
        f.read_config(&Err(ApiFailure::Transport)),
        Err(Error::Api(ApiFailure::Transport))
    );
}

#[test]
fn default_entry_is_empty() {
    let cfg = Config::default();
    assert_eq!(cfg.server(), "");
    assert_eq!(cfg.username(), "");
    assert_eq!(cfg.password(), "");
    assert_eq!(cfg.namespaces(), names(&[]));
    assert!(!cfg.selects("a"));
    let copy = entry("r", &["a"]).clone();
    assert_eq!(copy.server(), "r");
    assert!(copy.selects("a"));
}

#[test]
fn failures_are_sorted_into_classes() {
    assert_eq!(
        classify(ApiFailure::Transport),
        SyncError::Transient(ApiFailure::Transport)
    );
    for code in [408u16, 429, 500, 502, 503, 504, 599] {
        assert_eq!(
            classify(ApiFailure::Status(code)),
            SyncError::Transient(ApiFailure::Status(code))
        );
    }
    for code in [400u16, 401, 403, 404, 409, 422, 499] {
        assert_eq!(
            classify(ApiFailure::Status(code)),
            SyncError::Fatal(ApiFailure::Status(code))
        );
    }
    assert!(absent(ApiFailure::Status(404)));
    assert!(!absent(ApiFailure::Status(403)));
    assert!(!absent(ApiFailure::Transport));
}

#[test]
fn unselected_namespace_is_skipped_whatever_was_read() {
    let cfg = entry("reg.example.com", &["a", "b"]);
    let w = worker();
    let absent = SecretRead::Failed(ApiFailure::Status(404));
    assert!(matches!(w.ensure_registry_secret("c", &cfg, absent), SecretAction::Skip));
    let found = SecretRead::Found(Some("old".to_string()));
    assert!(matches!(w.ensure_registry_secret("c", &cfg, found), SecretAction::Skip));
    let failed = SecretRead::Failed(ApiFailure::Status(500));
    assert!(matches!(w.ensure_registry_secret("c", &cfg, failed), SecretAction::Skip));
}

#[test]
fn missing_secret_is_created() {
    let cfg = entry("reg.example.com", &["a", "b"]);
    let w = worker();
    let action = w.ensure_registry_secret("a", &cfg, SecretRead::Failed(ApiFailure::Status(404)));
    match action {
        SecretAction::Create(write) => {
            assert_eq!(write.namespace, "a");
            assert_eq!(write.name, "reg.example.com");
            assert_eq!(write.blob, blob_of(&cfg));
            let value: serde_json::Value = serde_json::from_str(&write.body).unwrap();
            assert_eq!(value["apiVersion"].as_str(), Some("v1"));
            assert_eq!(value["kind"].as_str(), Some("Secret"));
            assert_eq!(value["type"].as_str(), Some("kubernetes.io/dockerconfigjson"));
            assert_eq!(value["metadata"]["name"].as_str(), Some("reg.example.com"));
            assert_eq!(value["metadata"]["namespace"].as_str(), Some("a"));
            assert_eq!(value["data"][".dockerconfigjson"].as_str(), Some(write.blob.as_str()));
        }
        other => panic!("expected a create, got {:?}", other),
    }
}

#[test]
fn stale_secret_is_patched() {
    let cfg = entry("reg.example.com", &["*"]);
    let w = worker();
    for stored in [Some("stale".to_string()), Some(String::new()), None] {
        match w.ensure_registry_secret("team", &cfg, SecretRead::Found(stored)) {
            SecretAction::Patch(write) => {
                assert_eq!(write.namespace, "team");
                assert_eq!(write.name, "reg.example.com");
                assert_eq!(write.blob, blob_of(&cfg));
                assert_eq!(
                    write.body,
                    format!("{{\"data\":{{\".dockerconfigjson\":\"{}\"}}}}", write.blob)
                );
            }
            other => panic!("expected a patch, got {:?}", other),
        }
    }
}

#[test]
fn secret_up_to_date_is_kept() {
    let cfg = entry("reg.example.com", &["team"]);
    let w = worker();
    let read = SecretRead::Found(Some(blob_of(&cfg)));
    assert!(matches!(w.ensure_registry_secret("team", &cfg, read), SecretAction::Keep));
}

#[test]
fn other_read_failures_fail_the_pair() {
    let cfg = entry("reg.example.com", &["team"]);
    let w = worker();
    match w.ensure_registry_secret("team", &cfg, SecretRead::Failed(ApiFailure::Status(403))) {
        SecretAction::Fail(error) => {
            assert_eq!(error, SyncError::Fatal(ApiFailure::Status(403)))
        }
        other => panic!("expected a failure, got {:?}", other),
    }
    match w.ensure_registry_secret("team", &cfg, SecretRead::Failed(ApiFailure::Transport)) {
        SecretAction::Fail(error) => {
            assert_eq!(error, SyncError::Transient(ApiFailure::Transport))
        }
        other => panic!("expected a failure, got {:?}", other),
    }
}

#[test]
fn manifest_quotes_its_names() {
    let cfg = entry("reg\"x", &["*"]);
    let w = worker();
    match w.ensure_registry_secret("n\\s", &cfg, SecretRead::Failed(ApiFailure::Status(404))) {
        SecretAction::Create(write) => {
            assert!(write.body.contains("\"name\":\"reg\\\"x\""));
            assert!(write.body.contains("\"namespace\":\"n\\\\s\""));
            let value: serde_json::Value = serde_json::from_str(&write.body).unwrap();
            assert_eq!(value["metadata"]["name"].as_str(), Some("reg\"x"));
            assert_eq!(value["metadata"]["namespace"].as_str(), Some("n\\s"));
        }
        other => panic!("expected a create, got {:?}", other),
    }
}

#[test]
fn documents_are_put_together_in_order() {
    assert_eq!(secret_patch("QUJD"), "{\"data\":{\".dockerconfigjson\":\"QUJD\"}}");
    assert_eq!(
        secret_manifest("\"n\"", "\"ns\"", "QUJD"),
        "{\"apiVersion\":\"v1\",\"data\":{\".dockerconfigjson\":\"QUJD\"},\"kind\":\"Secret\",\"metadata\":{\"name\":\"n\",\"namespace\":\"ns\"},\"type\":\"kubernetes.io/dockerconfigjson\"}"
    );
    assert_eq!(identity_patch(&names(&[])), "{\"imagePullSecrets\":[]}");
    assert_eq!(
        identity_patch(&names(&["\"a\""])),
        "{\"imagePullSecrets\":[{\"name\":\"a\"}]}"
    );
    assert_eq!(
        identity_patch(&names(&["\"a\"", "\"b\"", "\"c\""])),
        "{\"imagePullSecrets\":[{\"name\":\"a\"},{\"name\":\"b\"},{\"name\":\"c\"}]}"
    );
}

#[test]
fn binding_adds_behind_what_is_there() {
    let w = worker();
    let read = IdentityRead::Found(names(&["secret-foo"]));
    match w.ensure_patch_sa("ns", "secret-bar", read) {
        BindAction::Patch(write) => {
            assert_eq!(write.namespace, "ns");
            assert_eq!(write.name, "default");
            assert_eq!(write.refs, names(&["secret-foo", "secret-bar"]));
            assert_eq!(
                write.body,
                "{\"imagePullSecrets\":[{\"name\":\"secret-foo\"},{\"name\":\"secret-bar\"}]}"
            );
        }
        other => panic!("expected a patch, got {:?}", other),
    }
}

#[test]
fn binding_keeps_the_order_of_many() {
    let w = worker();
    let read = IdentityRead::Found(names(&["z", "a", "m"]));
    match w.ensure_patch_sa("ns", "k", read) {
        BindAction::Patch(write) => assert_eq!(write.refs, names(&["z", "a", "m", "k"])),
        other => panic!("expected a patch, got {:?}", other),
    }
}

#[test]
fn binding_twice_refers_once() {
    let w = worker();
    let first = w.ensure_patch_sa("ns", "secret-bar", IdentityRead::Found(names(&[])));
    let refs = match first {
        BindAction::Patch(write) => write.refs,
        other => panic!("expected a patch, got {:?}", other),
    };
    assert_eq!(refs, names(&["secret-bar"]));
    let second = w.ensure_patch_sa("ns", "secret-bar", IdentityRead::Found(refs.clone()));
    assert!(matches!(second, BindAction::Keep));
    assert_eq!(refs.iter().filter(|r| r.as_str() == "secret-bar").count(), 1);
}

#[test]
fn binding_quotes_the_names() {
    let w = worker();
    match w.ensure_patch_sa("ns", "b\"c", IdentityRead::Found(names(&["a"]))) {
        BindAction::Patch(write) => {
            assert_eq!(
                write.body,
                "{\"imagePullSecrets\":[{\"name\":\"a\"},{\"name\":\"b\\\"c\"}]}"
            );
        }
        other => panic!("expected a patch, got {:?}", other),
    }
}

#[test]
fn missing_identity_is_fatal() {
    let w = worker();
    match w.ensure_patch_sa("ns", "s", IdentityRead::Failed(ApiFailure::Status(404))) {
        BindAction::Fail(error) => assert_eq!(error, SyncError::Fatal(ApiFailure::Status(404))),
        other => panic!("expected a failure, got {:?}", other),
    }
    match w.ensure_patch_sa("ns", "s", IdentityRead::Failed(ApiFailure::Status(503))) {
        BindAction::Fail(error) => {
            assert_eq!(error, SyncError::Transient(ApiFailure::Status(503)))
        }
        other => panic!("expected a failure, got {:?}", other),
    }
}

#[test]
fn only_active_namespaces_are_listed() {
    let w = worker();
    let listing = Ok(vec![
        ("default".to_string(), Some("Active".to_string())),
        ("going".to_string(), Some("Terminating".to_string())),
        ("team-a".to_string(), Some("Active".to_string())),
        ("odd".to_string(), None),
        ("lower".to_string(), Some("active".to_string())),
    ]);
    assert_eq!(w.get_all_ns(listing), Ok(names(&["default", "team-a"])));
    assert_eq!(w.get_all_ns(Ok(vec![])), Ok(names(&[])));
    assert!(active(&Some("Active".to_string())));
    assert!(!active(&Some("Terminating".to_string())));
    assert!(!active(&None));
}

#[test]
fn failed_listing_is_an_error_not_an_empty_list() {
    let w = worker();
    assert_eq!(
        w.get_all_ns(Err(ApiFailure::Status(500))),
        Err(QueryError { failure: ApiFailure::Status(500) })
    );
    assert_eq!(
        w.get_all_ns(Err(ApiFailure::Transport)),
        Err(QueryError { failure: ApiFailure::Transport })
    );
}

#[test]
fn namespace_arrivals_ask_for_a_pass() {
    let w = worker();
    let event = |change, phase: Option<&str>| NamespaceEvent {
        change,
        name: "team".to_string(),
        phase: phase.map(|p| p.to_string()),
    };
    assert_eq!(
        w.watch_ns(&event(Change::Added, Some("Active"))),
        Some(Trigger::NamespaceCreated)
    );
    assert_eq!(w.watch_ns(&event(Change::Added, Some("Terminating"))), None);
    assert_eq!(w.watch_ns(&event(Change::Added, None)), None);
    assert_eq!(w.watch_ns(&event(Change::Modified, Some("Active"))), None);
    assert_eq!(w.watch_ns(&event(Change::Deleted, Some("Active"))), None);
}

#[test]
fn changes_of_the_record_ask_for_a_pass() {
    let w = worker();
    let event = |change, namespace: &str, name: &str| SecretEvent {
        change,
        namespace: namespace.to_string(),
        name: name.to_string(),
    };
    for change in [Change::Added, Change::Modified, Change::Deleted] {
        assert_eq!(
            w.watch_cfg_secret(&event(change, "default", "docker-registry")),
            Some(Trigger::ConfigChanged)
        );
    }
    assert_eq!(w.watch_cfg_secret(&event(Change::Modified, "other", "docker-registry")), None);
    assert_eq!(w.watch_cfg_secret(&event(Change::Modified, "default", "reg.example.com")), None);
}
