use engram_core::types::harness::HarnessEgress;
use engram_core::types::image::{NetworkDefault, NetworkPolicy, SecretMode};
use engram_core::types::integration::{
    merge_harness_egress, IntegrationInject, IntegrationObserve, IntegrationPolicy,
    IntegrationSecret, ObserveUrlFallback,
};

#[test]
fn empty_parses_to_none() {
    assert_eq!(IntegrationPolicy::parse("").unwrap(), None);
    assert_eq!(IntegrationPolicy::parse("   ").unwrap(), None);
}

#[test]
fn graphql_fields_default_when_absent() {
    let json = r#"{"injects":[{"hosts":["h"],"header_name":"X","header_template":"{}","secret_ref":"r","methods":["POST"],"path_globs":["/graphql"]}]}"#;
    let p = IntegrationPolicy::parse(json).unwrap().unwrap();
    assert!(p.injects[0].graphql_operation.is_empty());
    assert!(p.injects[0].graphql_field.is_empty());
}

#[test]
fn defaults_fill_missing_request_policy() {
    let json = r#"{"injects":[{"hosts":["h"],"header_name":"X","header_template":"{}","secret_ref":"r"}]}"#;
    let p = IntegrationPolicy::parse(json).unwrap().unwrap();
    assert!(p.injects[0].methods.is_empty());
    assert!(p.injects[0].path_globs.is_empty());
}

#[test]
fn observes_default_to_empty_when_absent() {
    let json = r#"{"injects":[]}"#;
    let p = IntegrationPolicy::parse(json).unwrap().unwrap();
    assert!(p.observes.is_empty());
}

#[test]
fn observe_url_fallback_defaults_when_absent() {
    let json = r#"{"observes":[{"hosts":["h"],"provider":"github","asset_kind":"issue","surface":"asset"}]}"#;
    let p = IntegrationPolicy::parse(json).unwrap().unwrap();
    assert_eq!(p.observes[0].url_fallback, None);
}

#[test]
fn network_and_secrets_default_when_absent() {
    let json = r#"{"injects":[],"observes":[]}"#;
    let p = IntegrationPolicy::parse(json).unwrap().unwrap();
    assert!(p.secrets.is_empty());
    assert!(p.network.allow_hosts.is_empty());
    assert_eq!(p.network.default, NetworkDefault::Deny);
}

fn egress(hosts: &[&str], patterns: &[&str]) -> HarnessEgress {
    HarnessEgress {
        allow_hosts: hosts.iter().map(|s| s.to_string()).collect(),
        allow_host_patterns: patterns.iter().map(|s| s.to_string()).collect(),
    }
}

fn policy(default: NetworkDefault, allow_hosts: Vec<String>) -> IntegrationPolicy {
    IntegrationPolicy {
        network: NetworkPolicy {
            default,
            allow_hosts,
            allow_host_patterns: vec![],
        },
        ..Default::default()
    }
}

#[test]
fn merge_harness_egress_appends_and_dedupes_on_deny() {
    let merged = merge_harness_egress(
        Some(policy(
            NetworkDefault::Deny,
            vec!["github.com".into(), "api.anthropic.com".into()],
        )),
        &egress(
            &["api.anthropic.com", "statsig.anthropic.com"],
            &["*.example.dev"],
        ),
    )
    .unwrap();
    assert_eq!(
        merged.network.allow_hosts,
        vec!["github.com", "api.anthropic.com", "statsig.anthropic.com"]
    );
    assert_eq!(merged.network.allow_host_patterns, vec!["*.example.dev"]);
}

#[test]
fn merge_harness_egress_is_a_noop_on_allow_default_and_empty_egress() {
    let merged = merge_harness_egress(
        Some(policy(NetworkDefault::Allow, vec![])),
        &egress(&["api.anthropic.com"], &[]),
    )
    .unwrap();
    assert_eq!(merged, policy(NetworkDefault::Allow, vec![]));

    assert_eq!(merge_harness_egress(None, &egress(&[], &[])), None);
}

#[test]
fn merge_harness_egress_synthesizes_a_policy_when_absent() {
    let merged = merge_harness_egress(None, &egress(&["api.anthropic.com"], &[])).unwrap();
    assert_eq!(merged.network.default, NetworkDefault::Deny);
    assert_eq!(merged.network.allow_hosts, vec!["api.anthropic.com"]);
    assert!(merged.injects.is_empty());
    assert!(merged.secrets.is_empty());
}

#[test]
fn a_policy_of_the_wrong_shape_is_refused() {
    for bad in [
        "{",
        "[1]",
        r#"{"injects":{}}"#,
        r#"{"injects":[{"hosts":["h"]}],"observes":3}"#,
        r#"{"network":{"default":"maybe"}}"#,
        r#"{"observes":[{"hosts":["h"]}]}"#,
    ] {
        assert!(IntegrationPolicy::parse(bad).is_err(), "{bad}");
    }
}

#[test]
fn round_trips_an_inject() {
    let p = IntegrationPolicy {
        injects: vec![IntegrationInject {
            hosts: vec!["api.datadoghq.com".into()],
            header_name: "DD-API-KEY".into(),
            header_template: "{}".into(),
            secret_ref: "datadog-api-key".into(),
            mint_provider: String::new(),
            methods: vec!["GET".into()],
            path_globs: vec!["/api/v2/logs*".into()],
            graphql_operation: String::new(),
            graphql_field: String::new(),
        }],
        observes: vec![],
        ..Default::default()
    };
    let json = p.to_json();
    assert_eq!(IntegrationPolicy::parse(&json).unwrap(), Some(p));
}

#[test]
fn round_trips_a_graphql_inject_and_observe() {
    let p = IntegrationPolicy {
        injects: vec![IntegrationInject {
            hosts: vec!["api.github.com".into()],
            header_name: String::new(),
            header_template: String::new(),
            secret_ref: String::new(),
            mint_provider: "github".into(),
            methods: vec!["POST".into()],
            path_globs: vec!["/graphql".into()],
            graphql_operation: "mutation".into(),
            graphql_field: "createIssue".into(),
        }],
        observes: vec![IntegrationObserve {
            hosts: vec!["api.github.com".into()],
            methods: vec!["POST".into()],
            path_globs: vec!["/graphql".into()],
            provider: "github".into(),
            asset_kind: "issue".into(),
            surface: "asset".into(),
            success_status_class: None,
            success_no_graphql_errors: true,
            graphql_operation: "mutation".into(),
            graphql_field: "createIssue".into(),
            data: vec![("id".into(), "$.resp.data.createIssue.issue.id".into())],
            fetchable: None,
            url_fallback: None,
        }],
        ..Default::default()
    };
    let json = p.to_json();
    assert_eq!(IntegrationPolicy::parse(&json).unwrap(), Some(p));
}

#[test]
fn round_trips_an_observe() {
    let p = IntegrationPolicy {
        injects: vec![],
        observes: vec![IntegrationObserve {
            hosts: vec!["api.github.com".into()],
            methods: vec!["POST".into()],
            path_globs: vec!["/repos/*/issues".into()],
            provider: "github".into(),
            asset_kind: "issue".into(),
            surface: "asset".into(),
            success_status_class: Some("2xx".into()),
            success_no_graphql_errors: false,
            graphql_operation: String::new(),
            graphql_field: String::new(),
            data: vec![("number".into(), "$.resp.number".into())],
            fetchable: Some("$.resp.html_url".into()),
            url_fallback: Some(ObserveUrlFallback {
                pattern: "https://github.com/{owner}/{name}/issues/{number:int}".into(),
                fields: vec![("number".into(), "{number}".into())],
            }),
        }],
        ..Default::default()
    };
    let json = p.to_json();
    assert_eq!(IntegrationPolicy::parse(&json).unwrap(), Some(p));
}

#[test]
fn round_trips_network_and_secrets() {
    let p = IntegrationPolicy {
        network: NetworkPolicy {
            default: NetworkDefault::Deny,
            allow_hosts: vec!["sentry.io".into()],
            allow_host_patterns: vec!["*.pypi.org".into()],
        },
        secrets: vec![IntegrationSecret {
            secret_ref: "datadog-api-key".into(),
            env_var: "DD_API_KEY".into(),
            mode: SecretMode::Broker,
            allow_hosts: vec!["api.datadoghq.com".into()],
            allow_host_patterns: vec![],
        }],
        ..Default::default()
    };
    let json = p.to_json();
    assert_eq!(IntegrationPolicy::parse(&json).unwrap(), Some(p));
}

#[test]
fn a_policy_is_read_from_lists_of_its_fields() {
    let json = r#"[[[["h"],"X","{}","r"]],[[["h"],[],[],"p","k","s",null,true]],["allow",["a"]],[["r","E",{"broker":null}]]]"#;
    let p = IntegrationPolicy::parse(json).unwrap().unwrap();
    assert_eq!((p.injects[0].header_name.as_str(), p.injects[0].secret_ref.as_str()), ("X", "r"));
    assert!(p.observes[0].success_no_graphql_errors);
    assert_eq!(p.observes[0].surface, "s");
    assert_eq!(p.network.default, NetworkDefault::Allow);
    assert_eq!(p.network.allow_hosts, vec!["a".to_string()]);
    assert_eq!(p.secrets[0].mode, SecretMode::Broker);
    assert_eq!(
        IntegrationPolicy::parse("[]").unwrap(),
        IntegrationPolicy::parse("{}").unwrap()
    );
    for bad in [
        "[[],[],[],[],[]]",
        r#"[[[["h"],"X"]]]"#,
        r#"[[],[[["h"],[],[],"p","k"]]]"#,
        r#"[[],[],["allow",[],[],[]]]"#,
        r#"[[],[],[],[["r"]]]"#,
    ] {
        assert!(IntegrationPolicy::parse(bad).is_err(), "{bad}");
    }
}

#[test]
fn the_default_of_a_network_may_stand_in_a_table() {
    let read = |d: &str| {
        IntegrationPolicy::parse(&format!(r#"{{"network":{{"default":{d}}}}}"#))
            .map(|p| p.unwrap().network.default)
    };
    assert_eq!(read(r#""allow""#), Ok(NetworkDefault::Allow));
    assert_eq!(read(r#"{"allow":null}"#), Ok(NetworkDefault::Allow));
    assert_eq!(read(r#"{"deny":null}"#), Ok(NetworkDefault::Deny));
    for bad in [r#"{"allow":true}"#, r#"{"allow":null,"deny":null}"#, "{}", "null", r#"["allow"]"#] {
        assert!(read(bad).is_err(), "{bad}");
    }
}
