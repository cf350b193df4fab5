use engram_core::error::GitForgeError;
use engram_core::traits::git::{ForgeKind, PullRequestSpec, RepoRef};

#[test]
fn repo_ref_parses_owner_name() {
    let r = RepoRef::parse("cortexapps/engrams").unwrap();
    assert_eq!(r.owner, "cortexapps");
    assert_eq!(r.name, "engrams");
    assert_eq!(r.to_string(), "cortexapps/engrams");
}

#[test]
fn repo_ref_rejects_malformed_slugs() {
    for bad in ["", "noslash", "a/b/c", "/b", "a/", "/"] {
        assert!(
            RepoRef::parse(bad).is_err(),
            "expected `{bad}` to be rejected"
        );
    }
}

#[test]
fn repo_ref_error_quotes_the_slug() {
    match RepoRef::parse("a/b/c") {
        Err(GitForgeError::InvalidSpec(m)) => {
            assert_eq!(m, "repo must be `owner/name`, got `a/b/c`")
        }
        Ok(r) => panic!("unexpected {r:?}"),
    }
}

#[test]
fn forge_kind_round_trips_snake_case() {
    for (k, wire) in [
        (ForgeKind::GitHub, "github"),
        (ForgeKind::GitLab, "gitlab"),
        (ForgeKind::Gitea, "gitea"),
    ] {
        assert_eq!(k.as_str(), wire);
        assert_eq!(ForgeKind::parse(wire), Some(k));
    }
    assert_eq!(ForgeKind::parse("GitHub"), None);
}

#[test]
fn pull_request_spec_defaults_body_and_draft() {
    let spec =
        PullRequestSpec::from_json(r#"{"head_branch":"feat","base_branch":"main","title":"t"}"#)
            .unwrap();
    assert_eq!(spec.body, "");
    assert!(!spec.draft);
}

#[test]
fn pull_request_spec_reads_all_fields() {
    let spec = PullRequestSpec::from_json(
        r#"{"head_branch":"f","base_branch":"m","title":"t","body":"b","draft":true,"more":1}"#,
    )
    .unwrap();
    assert_eq!(
        spec,
        PullRequestSpec {
            head_branch: "f".into(),
            base_branch: "m".into(),
            title: "t".into(),
            body: "b".into(),
            draft: true,
        }
    );
    assert!(PullRequestSpec::from_json(r#"{"head_branch":"f","title":"t"}"#).is_err());
    assert!(PullRequestSpec::from_json("[").is_err());
}

#[test]
fn pull_request_spec_reads_a_list_of_its_fields() {
    let spec = PullRequestSpec::from_json(r#"["f","m","t","b",true]"#).unwrap();
    assert_eq!((spec.head_branch.as_str(), spec.title.as_str()), ("f", "t"));
    assert_eq!((spec.body.as_str(), spec.draft), ("b", true));
    assert_eq!(PullRequestSpec::from_json(r#"["f","m","t"]"#).unwrap().body, "");
    assert!(PullRequestSpec::from_json(r#"["f","m"]"#).is_err());
    assert!(PullRequestSpec::from_json(r#"["f","m","t","b",true,1]"#).is_err());
}
