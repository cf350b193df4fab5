use engram_core::types::harness::{HarnessDescriptor, HarnessOAuth, OAuthDelivery};

const AGENT: &str = r#"
name  = "agent"
label = "Agent Code"

[auth]
org_env  = "ANTHROPIC_API_KEY"
user_env = "AGENT_CODE_OAUTH_TOKEN"

[[models]]
id = "opus"
label = "Agent Opus 4.8"
default = true
env = { ANTHROPIC_MODEL = "agent-opus-4-8" }

[[models]]
id = "sonnet"
env = { ANTHROPIC_MODEL = "agent-sonnet-4-6" }

[[effort]]
id = "high"
env = { MAX_THINKING_TOKENS = "32000" }
"#;

#[test]
fn parses_the_claude_descriptor() {
    let d = HarnessDescriptor::parse(AGENT).expect("valid");
    assert_eq!(d.name, "agent");
    assert_eq!(d.display_label(), "Agent Code");
    assert_eq!(d.auth.org_env.as_deref(), Some("ANTHROPIC_API_KEY"));
    assert_eq!(d.auth.user_env.as_deref(), Some("AGENT_CODE_OAUTH_TOKEN"));
    assert_eq!(d.models.len(), 2);
    assert_eq!(d.effort.len(), 1);
}

#[test]
fn parses_the_egress_block_and_defaults_empty() {
    let src = r#"
name = "x"
[egress]
allow_hosts = ["api.example.com", "telemetry.example.com"]
allow_host_patterns = ["*.example.dev"]
"#;
    let d = HarnessDescriptor::parse(src).unwrap();
    assert_eq!(
        d.egress.allow_hosts,
        vec!["api.example.com", "telemetry.example.com"]
    );
    assert_eq!(d.egress.allow_host_patterns, vec!["*.example.dev"]);

    // Absent block: empty.
    let d = HarnessDescriptor::parse(AGENT).unwrap();
    assert!(d.egress.is_empty());
}

#[test]
fn parses_auth_hints() {
    let src = r#"
name = "x"
[auth]
user_env = "TOK"
user_env_hint = "Run `agent setup-token`."
org_env = "KEY"
org_env_hint = "Set an org secret KEY."
"#;
    let d = HarnessDescriptor::parse(src).unwrap();
    assert_eq!(
        d.auth.user_env_hint.as_deref(),
        Some("Run `agent setup-token`.")
    );
    assert_eq!(
        d.auth.org_env_hint.as_deref(),
        Some("Set an org secret KEY.")
    );
}

#[test]
fn parses_oauth_and_rejects_two_human_mechanisms() {
    let oauth = HarnessDescriptor::parse(
        r#"
name = "codex"
[auth.user_oauth]
provider = "openai-codex"
delivery = "opaque_bundle"
"#,
    )
    .unwrap();
    assert_eq!(
        oauth.auth.user_oauth,
        Some(HarnessOAuth {
            provider: "openai-codex".into(),
            delivery: OAuthDelivery::OpaqueBundle,
        })
    );

    let err = HarnessDescriptor::parse(
        r#"
name = "bad"
[auth]
user_env = "TOKEN"
[auth.user_oauth]
provider = "openai-codex"
delivery = "opaque_bundle"
"#,
    )
    .unwrap_err();
    assert!(err.contains("mutually exclusive"), "{err}");
}

#[test]
fn default_model_prefers_the_flagged_option() {
    let d = HarnessDescriptor::parse(AGENT).unwrap();
    assert_eq!(d.default_model().unwrap().id, "opus");
    assert_eq!(
        d.model("sonnet")
            .unwrap()
            .env
            .get("ANTHROPIC_MODEL")
            .unwrap(),
        "agent-sonnet-4-6"
    );
}

#[test]
fn default_falls_back_to_first_when_none_flagged() {
    let src = r#"
name = "x"
[[models]]
id = "a"
[[models]]
id = "b"
"#;
    let d = HarnessDescriptor::parse(src).unwrap();
    assert_eq!(d.default_model().unwrap().id, "a");
    assert!(d.default_effort().is_none());
}

#[test]
fn rejects_empty_name() {
    let err = HarnessDescriptor::parse(r#"name = """#).unwrap_err();
    assert!(err.contains("name must not be empty"), "{err}");
}

#[test]
fn rejects_bad_env_var_name() {
    let src = r#"
name = "x"
[auth]
org_env = "1BAD"
"#;
    let err = HarnessDescriptor::parse(src).unwrap_err();
    assert!(err.contains("org_env"), "{err}");
    assert!(err.contains("invalid env var name"), "{err}");
}

#[test]
fn rejects_duplicate_option_ids() {
    let src = r#"
name = "x"
[[models]]
id = "dup"
[[models]]
id = "dup"
"#;
    let err = HarnessDescriptor::parse(src).unwrap_err();
    assert!(err.contains("duplicate id"), "{err}");
}

#[test]
fn rejects_two_defaults() {
    let src = r#"
name = "x"
[[effort]]
id = "a"
default = true
[[effort]]
id = "b"
default = true
"#;
    let err = HarnessDescriptor::parse(src).unwrap_err();
    assert!(err.contains("at most one option may be default"), "{err}");
}

#[test]
fn rejects_unknown_fields() {
    let src = r#"
name = "x"
bogus = "nope"
"#;
    assert!(HarnessDescriptor::parse(src).is_err());
}

#[test]
fn exec_path_defaults_and_overrides() {
    let d = HarnessDescriptor::parse(r#"name = "x""#).unwrap();
    assert_eq!(d.exec_path(), "harness");
    assert!(d.args.is_empty());

    let d = HarnessDescriptor::parse(
        r#"
name = "x"
exec = "bin/run"
args = ["--serve", "--quiet"]
"#,
    )
    .unwrap();
    assert_eq!(d.exec_path(), "bin/run");
    assert_eq!(d.args, vec!["--serve", "--quiet"]);
}

#[test]
fn rejects_unsafe_exec_paths() {
    for bad in ["/abs/path", "../escape", "a/../../b", ""] {
        let src = format!("name = \"x\"\nexec = {bad:?}");
        assert!(
            HarnessDescriptor::parse(&src).is_err(),
            "exec {bad:?} should be rejected"
        );
    }
}

#[test]
fn parses_modes_and_defaults_empty() {
    let src = r#"
name = "x"
[[modes]]
id = "default"
label = "Build"
default = true
[[modes]]
id = "plan"
label = "Plan"
"#;
    let d = HarnessDescriptor::parse(src).unwrap();
    assert_eq!(d.modes.len(), 2);
    assert_eq!(d.default_mode().unwrap().id, "default");
    assert_eq!(d.mode("plan").unwrap().display_label(), "Plan");
    assert!(d.mode("bogus").is_none());

    // Absent block: empty.
    let d = HarnessDescriptor::parse(AGENT).unwrap();
    assert!(d.modes.is_empty());
    assert!(d.default_mode().is_none());
}

#[test]
fn rejects_duplicate_or_multi_default_modes() {
    let dup = r#"
name = "x"
[[modes]]
id = "plan"
[[modes]]
id = "plan"
"#;
    let err = HarnessDescriptor::parse(dup).unwrap_err();
    assert!(err.contains("duplicate id"), "{err}");

    let two_defaults = r#"
name = "x"
[[modes]]
id = "a"
default = true
[[modes]]
id = "b"
default = true
"#;
    let err = HarnessDescriptor::parse(two_defaults).unwrap_err();
    assert!(err.contains("at most one mode may be default"), "{err}");
}

#[test]
fn rejects_env_on_a_mode() {
    // A mode is a pure declaration: an env map is an error of shape.
    let src = r#"
name = "x"
[[modes]]
id = "plan"
env = { SOME_VAR = "1" }
"#;
    assert!(HarnessDescriptor::parse(src).is_err());
}

#[test]
fn parts_of_a_descriptor_are_read_from_lists() {
    let d = HarnessDescriptor::parse(
        r#"
name = "a"
auth = { org_env = "ORG", user_oauth = ["openai", { opaque_bundle = {} }] }
models = [["m", "Model", true, { A = "b" }], { id = "n" }]
modes = [["auto", "Auto", true, "surplus"]]
egress = [["h.example"]]
"#,
    )
    .unwrap();
    assert_eq!(d.auth.org_env.as_deref(), Some("ORG"));
    assert_eq!(
        d.auth.user_oauth,
        Some(HarnessOAuth { provider: "openai".into(), delivery: OAuthDelivery::OpaqueBundle })
    );
    assert_eq!(d.models[0].env.get("A"), Some("b"));
    assert_eq!(d.modes[0].id, "auto");
    assert_eq!(d.egress.allow_hosts, vec!["h.example".to_string()]);
    let listed = HarnessDescriptor::parse("name = \"a\"\nauth = [\"ORG\", \"USER\"]\n").unwrap();
    assert_eq!(listed.auth.user_env.as_deref(), Some("USER"));
    for bad in [
        "models = [[]]",
        "auth = [\"O\", 1]",
        "auth = { user_oauth = [\"openai\"] }",
        "auth = { user_oauth = [\"openai\", { opaque_bundle = [1] }] }",
        "auth = { user_oauth = [\"openai\", { opaque_bundle = {}, more = {} }] }",
    ] {
        let text = format!("name = \"a\"\n{bad}\n");
        assert!(HarnessDescriptor::parse(&text).is_err(), "{bad}");
    }
}

#[test]
fn round_trips_through_toml() {
    let d = HarnessDescriptor::parse(AGENT).unwrap();
    let rendered = d.to_toml();
    let again = HarnessDescriptor::parse(&rendered).unwrap();
    assert_eq!(d, again);
}

#[test]
fn a_descriptor_is_written_without_what_is_absent() {
    let d = HarnessDescriptor { name: "a".into(), ..HarnessDescriptor::default() };
    assert_eq!(d.to_toml(), "name = \"a\"\n\n[auth]\n");
    assert_eq!(HarnessDescriptor::parse(&d.to_toml()).unwrap(), d);
    let full = HarnessDescriptor::parse(
        r#"
name = "a"
description = "d"
exec = "bin/run"
args = ["-v"]
egress = { allow_host_patterns = ["*.example"] }
auth = { user_oauth = { provider = "openai", delivery = "opaque_bundle" }, org_env_hint = "h", org_env = "O" }
[[models]]
id = "m"
label = "M"
default = true
env = { B = "2", A = "1" }
[[models]]
id = "n"
[[effort]]
id = "e"
[[modes]]
id = "auto"
default = true
"#,
    )
    .unwrap();
    let text = r#"name = "a"
description = "d"
exec = "bin/run"
args = ["-v"]

[auth]
org_env = "O"
org_env_hint = "h"

[auth.user_oauth]
provider = "openai"
delivery = "opaque_bundle"

[[models]]
id = "m"
label = "M"
default = true

[models.env]
A = "1"
B = "2"

[[models]]
id = "n"

[[effort]]
id = "e"

[[modes]]
id = "auto"
default = true

[egress]
allow_host_patterns = ["*.example"]
"#;
    assert_eq!(full.to_toml(), text);
    assert_eq!(HarnessDescriptor::parse(text).unwrap(), full);
    assert_eq!(HarnessDescriptor::from_document(&full.document()).unwrap(), full);
}
