use engram_core::types::image::{
    recommended_swap_mib, CaptureEnvEntry, CaptureEnvValue, ImageConfig, NetworkDefault,
    OciRuntimeDefaults, ResourceHints, SecretMode, WarmConfig, DEFAULT_MEMORY_MIB, DEFAULT_VCPUS,
};

fn sized(mem: Option<u32>, swap: Option<u32>) -> ImageConfig {
    ImageConfig {
        name: "x".into(),
        resources: ResourceHints {
            suggested_memory_mib: mem,
            suggested_vcpus: Some(2),
            suggested_disk_gib: None,
            suggested_swap_mib: swap,
        },
        ..ImageConfig::default()
    }
}

#[test]
fn swap_sizing_resolves_and_validates() {
    assert_eq!(sized(Some(24576), None).resolved_swap_mib(), 0);
    assert_eq!(sized(Some(24576), Some(0)).resolved_swap_mib(), 0);
    assert_eq!(sized(Some(24576), Some(6144)).resolved_swap_mib(), 6144);

    assert_eq!(recommended_swap_mib(24576), 6144);
    assert_eq!(recommended_swap_mib(2048), 1024);
    assert_eq!(recommended_swap_mib(65536), 8192);
    assert_eq!(recommended_swap_mib(DEFAULT_MEMORY_MIB), 1024);

    assert!(sized(Some(4096), Some(4096)).validate().is_ok());
    let err = sized(Some(4096), Some(4097)).validate().unwrap_err();
    assert!(err.contains("suggested_swap_mib"), "got: {err}");
    assert!(sized(None, Some(DEFAULT_MEMORY_MIB + 1)).validate().is_err());
    assert!(sized(None, Some(1024)).validate().is_ok());
}

#[test]
fn merged_with_folds_env_and_workdir_under_config() {
    let c = ImageConfig::from_toml(
        r#"
            name = "x"
            [env]
            RUSTC_WRAPPER = "sccache"
        "#,
    )
    .unwrap();
    let defaults = OciRuntimeDefaults::from_docker_config(
        &[
            "PATH=/opt/cargo/bin:/usr/bin".to_string(),
            "RUSTC_WRAPPER=should-not-win".to_string(),
            "malformed-no-equals".to_string(),
        ],
        Some("/workspace/engrams"),
    );
    let m = c.merged_with(&defaults);
    assert_eq!(m.env.get("PATH"), Some("/opt/cargo/bin:/usr/bin"));
    assert_eq!(m.env.get("RUSTC_WRAPPER"), Some("sccache"));
    assert!(m.env.get("malformed-no-equals").is_none());
    assert_eq!(m.workdir.as_deref(), Some("/workspace/engrams"));
    assert!(c.env.get("PATH").is_none());
}

#[test]
fn merged_with_respects_explicit_workdir_and_empty() {
    let c = ImageConfig::from_toml("name = \"x\"\nworkdir = \"/config-wins\"").unwrap();
    let d = OciRuntimeDefaults::from_docker_config(&[], Some("/from-docker"));
    assert_eq!(
        c.merged_with(&d).workdir.as_deref(),
        Some("/config-wins"),
        "explicit config workdir wins"
    );

    let c = ImageConfig::from_toml(r#"name = "x""#).unwrap();
    assert_eq!(
        OciRuntimeDefaults::from_docker_config(&[], Some("")).workdir,
        None
    );
    assert_eq!(c.merged_with(&OciRuntimeDefaults::default()).workdir, None);
}

#[test]
fn validate_requires_name_and_vcpus() {
    let c = ImageConfig::from_toml(r#"name = "x""#).unwrap();
    let err = c.validate().unwrap_err();
    assert!(err.contains("suggested_vcpus"), "{err}");

    let c =
        ImageConfig::from_toml("name = \"  \"\n[resources]\nsuggested_vcpus = 2\n").unwrap();
    let err = c.validate().unwrap_err();
    assert!(err.contains("name"), "{err}");

    let c = ImageConfig::from_toml("name = \"x\"\n[resources]\nsuggested_vcpus = 2\n").unwrap();
    c.validate()
        .expect("name + vcpus is the minimal valid config");
}

#[test]
fn config_parses_minimal_toml() {
    let src = r#"
            name = "cortex-api"
        "#;
    let c = ImageConfig::from_toml(src).unwrap();
    assert_eq!(c.name, "cortex-api");
    assert!(c.env.is_empty());
}

#[test]
fn config_rejects_retired_manifest_sections_and_typos() {
    for src in [
        "name = \"x\"\n[git]\nprovider = \"github\"\n",
        "name = \"x\"\nsecret_mode = \"broker\"\n",
        "name = \"x\"\n[network]\ndefault = \"deny\"\n",
        "name = \"x\"\nenviroment = { FOO = \"bar\" }\n",
    ] {
        assert!(ImageConfig::from_toml(src).is_err(), "must reject: {src}");
    }
}

const FULL: &str = r#"
            name = "dev-brain"
            description = "Cortex development"
            workdir = "/workspace"

            [env]
            PATH = "/opt/cargo/bin:/usr/bin"

            [resources]
            suggested_memory_mib = 24576
            suggested_vcpus = 8

            [warm]
            command = ["bash", "-lc", "gradle --daemon help"]
            timeout_secs = 900
            workdir = "/workspace/brain-backend"

            [[warm.env]]
            name = "GITHUB_PASSWORD"
            value = { kind = "secret_ref", secret_ref = "github-image-bot-pat" }

            [[warm.env]]
            name = "GRADLE_OPTS"
            value = { kind = "literal", value = "-Xmx4g" }

            [warm.network]
            default = "deny"
            allow_hosts = ["repo.maven.apache.org"]
            allow_host_patterns = ["*.gradle.org"]
        "#;

#[test]
fn config_round_trips_through_toml_and_json() {
    let c = ImageConfig::from_toml(FULL).unwrap();
    c.validate().expect("full config validates");
    let w = c.warm.as_ref().unwrap();
    assert_eq!(w.env.len(), 2);
    assert_eq!(w.env[0].name, "GITHUB_PASSWORD");
    assert!(matches!(
        &w.env[0].value,
        CaptureEnvValue::SecretRef { secret_ref } if secret_ref == "github-image-bot-pat"
    ));
    let net = w.network.as_ref().unwrap();
    assert_eq!(net.default, NetworkDefault::Deny);
    assert_eq!(net.allow_hosts, vec!["repo.maven.apache.org"]);

    let json = c.to_json();
    let back = ImageConfig::from_json(&json).unwrap();
    assert_eq!(back, c);
    assert_eq!(back.name, "dev-brain");
    assert_eq!(back.warm.as_ref().unwrap().env.len(), 2);
    assert_eq!(
        back.warm.as_ref().unwrap().network,
        c.warm.as_ref().unwrap().network
    );

    let rendered = c.to_toml().unwrap();
    let back = ImageConfig::from_toml(&rendered).unwrap();
    assert_eq!(back, c);
    assert_eq!(back.warm.unwrap().env.len(), 2);
}

#[test]
fn config_is_written_as_toml_with_its_tables_last() {
    let c = ImageConfig::from_toml(FULL).unwrap();
    assert_eq!(
        c.to_toml().unwrap(),
        r#"name = "dev-brain"
description = "Cortex development"
workdir = "/workspace"

[env]
PATH = "/opt/cargo/bin:/usr/bin"

[resources]
suggested_memory_mib = 24576
suggested_vcpus = 8

[warm]
command = ["bash", "-lc", "gradle --daemon help"]
timeout_secs = 900
workdir = "/workspace/brain-backend"

[[warm.env]]
name = "GITHUB_PASSWORD"

[warm.env.value]
kind = "secret_ref"
secret_ref = "github-image-bot-pat"

[[warm.env]]
name = "GRADLE_OPTS"

[warm.env.value]
kind = "literal"
value = "-Xmx4g"

[warm.network]
default = "deny"
allow_hosts = ["repo.maven.apache.org"]
allow_host_patterns = ["*.gradle.org"]
"#
    );
    let plain = ImageConfig { name: "x".into(), ..ImageConfig::default() };
    assert_eq!(plain.to_toml().unwrap(), "name = \"x\"\n\n[env]\n\n[resources]\n");
    assert_eq!(ImageConfig::from_toml(&plain.to_toml().unwrap()).unwrap(), plain);
}

#[test]
fn texts_of_every_sort_survive_toml() {
    for text in [
        "",
        "a\tb",
        "say \"it\"",
        "C:\\dir",
        "it's",
        "it's \"both\" \\",
        "\n\nlines\n",
        "cr\r\nlf",
        "'''\"\"\"\\\n",
        "\u{0}\u{1f}\u{7f}",
        "\u{e9}\u{1f600}",
        "\"\"\"\"\"",
        "'\"'\"",
    ] {
        let c = ImageConfig {
            name: text.into(),
            workdir: Some(text.into()),
            env: {
                let mut env = ImageConfig::default().env;
                env.insert(text.into(), text.into());
                env.insert("a.b c".into(), "1".into());
                env
            },
            warm: Some(warm(vec![text.into(), text.into()])),
            ..ImageConfig::default()
        };
        assert_eq!(ImageConfig::from_toml(&c.to_toml().unwrap()).unwrap(), c, "{text:?}");
    }
}

#[test]
fn a_timeout_beyond_toml_is_refused() {
    let timed = |secs| ImageConfig {
        name: "x".into(),
        warm: Some(WarmConfig { timeout_secs: Some(secs), ..warm(vec![]) }),
        ..ImageConfig::default()
    };
    let most = timed(i64::MAX as u64);
    assert_eq!(ImageConfig::from_toml(&most.to_toml().unwrap()).unwrap(), most);
    let over = timed(i64::MAX as u64 + 1);
    assert_eq!(over.to_toml().unwrap_err(), "out-of-range value for u64 type");
    assert_eq!(ImageConfig::from_json(&over.to_json()).unwrap(), over);
}

#[test]
fn toml_lists_may_have_a_surplus() {
    let c = ImageConfig::from_toml(
        r#"
            name = "x"
            resources = [1, 2, 3, 4, "surplus"]
            warm = [["run"], 5, "/w", [["K", ["literal", "v"], 7]], ["allow", [], [], 8], 9]
        "#,
    )
    .unwrap();
    assert_eq!(c.resources.suggested_swap_mib, Some(4));
    let w = c.warm.unwrap();
    assert_eq!(w.env[0].value, CaptureEnvValue::Literal { value: "v".into() });
    assert_eq!(w.network.unwrap().default, NetworkDefault::Allow);
    for bad in [
        "resources = [1, 2, 3]",
        "warm = []",
        r#"warm = [[], 1, "", [["K"]]]"#,
        r#"warm = [[], 1, "", [["K", ["literal", "v", "w"]]]]"#,
    ] {
        assert!(ImageConfig::from_toml(&format!("name = \"x\"\n{bad}")).is_err(), "{bad}");
    }
}

#[test]
fn the_default_of_a_network_may_be_a_toml_table() {
    let read = |default: &str| {
        ImageConfig::from_toml(&format!(
            "name = \"x\"\n[warm]\ncommand = []\nnetwork = {{ default = {default} }}"
        ))
        .map(|c| c.warm.unwrap().network.unwrap().default)
    };
    assert_eq!(read("\"allow\""), Ok(NetworkDefault::Allow));
    assert_eq!(read("{ allow = {} }"), Ok(NetworkDefault::Allow));
    assert_eq!(read("{ deny = [] }"), Ok(NetworkDefault::Deny));
    for bad in ["{}", "{ allow = 1 }", "{ allow = {}, deny = {} }", "{ maybe = {} }", "[]"] {
        assert!(read(bad).is_err(), "{bad}");
    }
}

#[test]
fn config_is_written_in_the_order_of_its_fields() {
    let c = ImageConfig::from_toml("name = \"x\"\n[env]\nB = \"2\"\nA = \"1\"").unwrap();
    assert_eq!(
        c.to_json(),
        r#"{"name":"x","description":null,"env":{"A":"1","B":"2"},"workdir":null,"resources":{"suggested_memory_mib":null,"suggested_vcpus":null,"suggested_disk_gib":null,"suggested_swap_mib":null}}"#
    );
}

#[test]
fn config_parses_warm_block() {
    let plain = ImageConfig::from_toml(r#"name = "x""#).unwrap();
    assert!(plain.warm.is_none());
    assert!(
        !plain.to_toml().unwrap().contains("warm") && !plain.to_json().contains("warm"),
        "a warm-less image must not render a [warm] table"
    );

    let min = ImageConfig::from_toml(
        r#"
            name = "x"
            [warm]
            command = ["/usr/local/bin/engram-warm"]
        "#,
    )
    .unwrap();
    let w = min.warm.unwrap();
    assert!(w.timeout_secs.is_none());
    assert!(w.workdir.is_none());
    assert!(w.env.is_empty());
    assert_eq!(w.timeout().secs, WarmConfig::DEFAULT_TIMEOUT_SECS);
}

#[test]
fn warm_block_rejects_unknown_field() {
    assert!(
        ImageConfig::from_toml(
            r#"
                name = "x"
                [warm]
                command = ["echo"]
                timeout = 10
            "#
        )
        .is_err(),
        "typo `timeout` (vs timeout_secs) must be rejected"
    );
}

#[test]
fn capture_env_entry_jsonb_shape_round_trips() {
    let entries = || {
        vec![
            CaptureEnvEntry {
                name: "FLAG".into(),
                value: CaptureEnvValue::Literal { value: "1".into() },
            },
            CaptureEnvEntry {
                name: "TOKEN".into(),
                value: CaptureEnvValue::SecretRef {
                    secret_ref: "org-secret-name".into(),
                },
            },
        ]
    };
    let c = ImageConfig {
        name: "x".into(),
        warm: Some(WarmConfig {
            env: entries(),
            ..warm(vec!["run".into()])
        }),
        ..ImageConfig::default()
    };
    let json = c.to_json();
    assert!(json.contains("\"kind\":\"literal\""), "{json}");
    assert!(json.contains("\"kind\":\"secret_ref\""), "{json}");
    let back = ImageConfig::from_json(&json).unwrap();
    assert_eq!(back.warm.unwrap().env, entries());
}

#[test]
fn secret_mode_round_trips_through_serde() {
    for mode in [SecretMode::Literal, SecretMode::Broker] {
        assert_eq!(SecretMode::parse(mode.as_str()), Some(mode));
    }
    assert_eq!(SecretMode::parse("Literal"), None);
}

#[test]
fn configs_of_the_wrong_shape_are_refused() {
    for bad in [
        "{}",
        r#"{"name":1}"#,
        r#"{"name":"x","env":{"A":1}}"#,
        r#"{"name":"x","resources":{"suggested_vcpus":-1}}"#,
        r#"{"name":"x","resources":{"suggested_vcpus":4294967296}}"#,
        r#"{"name":"x","warm":{"command":["a"],"env":[{"name":"N","value":{"kind":"other"}}]}}"#,
        r#"{"name":"x","warm":{}}"#,
        "nothing",
    ] {
        assert!(ImageConfig::from_json(bad).is_err(), "{bad}");
    }
    assert!(ImageConfig::from_json(r#"{"name":"x","warm":null,"workdir":null}"#).is_ok());
}

fn warm(command: Vec<String>) -> WarmConfig {
    WarmConfig {
        command,
        timeout_secs: None,
        workdir: None,
        env: Vec::new(),
        network: None,
    }
}

#[test]
fn warm_validate_rejects_empty_command() {
    assert!(
        warm(vec![]).validate().is_err(),
        "empty command must be rejected"
    );
    assert!(
        warm(vec!["  ".into(), "\t".into()]).validate().is_err(),
        "all-whitespace command must be rejected"
    );
    warm(vec!["echo".into(), "ok".into()])
        .validate()
        .expect("a real command is valid");
}

#[test]
fn a_warm_hook_is_validated_with_its_image() {
    let mut c = sized(None, None);
    c.warm = Some(warm(vec![]));
    assert!(c.validate().is_err());
    c.warm = Some(warm(vec!["run".into()]));
    assert!(c.validate().is_ok());
    assert_eq!(warm(vec![]).timeout().secs, 600);
    assert_eq!(
        WarmConfig {
            timeout_secs: Some(5),
            ..warm(vec![])
        }
        .timeout()
        .secs,
        5
    );
}

#[test]
fn resources_resolve_to_their_defaults() {
    let c = ImageConfig::default();
    assert_eq!(c.resolved_memory_mib(), DEFAULT_MEMORY_MIB);
    assert_eq!(c.resolved_vcpus(), DEFAULT_VCPUS);
    assert_eq!(sized(Some(1), None).resolved_memory_mib(), 1);
}

#[test]
fn numbers_that_are_not_finite_are_refused() {
    for bad in ["workdir = nan", "description = inf", "warm = nan"] {
        let src = format!("name = \"x\"\n{bad}\n");
        assert!(ImageConfig::from_toml(&src).is_err(), "{bad}");
    }
}

#[test]
fn image_configs_are_read_from_lists_of_their_fields() {
    let c = ImageConfig::from_json(
        r#"["x",null,{"A":"b"},"/w",[1,2,null,4],[["run"],5,null,[["K",["literal","v"]],["S",["secret_ref","r"]]],["allow"]]]"#,
    )
    .unwrap();
    assert_eq!((c.name.as_str(), c.env.get("A")), ("x", Some("b")));
    assert_eq!(c.resources.suggested_swap_mib, Some(4));
    let warm = c.warm.unwrap();
    assert_eq!((warm.command, warm.timeout_secs), (vec!["run".to_string()], Some(5)));
    assert_eq!(warm.env[0].value, CaptureEnvValue::Literal { value: "v".into() });
    assert_eq!(warm.env[1].value, CaptureEnvValue::SecretRef { secret_ref: "r".into() });
    assert_eq!(warm.network.unwrap().default, NetworkDefault::Allow);
    assert_eq!(ImageConfig::from_json(r#"["x"]"#).unwrap().name, "x");
    let toml = ImageConfig::from_toml("name = \"x\"\nwarm = [[\"run\"], 5]").unwrap();
    assert_eq!(toml.warm.unwrap().timeout_secs, Some(5));
    for bad in [
        "[]",
        r#"["x",null,{},null,[1,2,3]]"#,
        r#"["x",null,{},null,{},null,1]"#,
        r#"["x",null,{},null,{},[[],1,null,[["K",["literal"]]]]]"#,
        r#"["x",null,{},null,{},[[],1,null,[["K",["secret_ref","a","b"]]]]]"#,
    ] {
        assert!(ImageConfig::from_json(bad).is_err(), "{bad}");
    }
}
