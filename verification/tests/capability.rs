use engram_core::types::capability::Capability;

#[test]
fn parses_provider_action_resource() {
    let c = Capability::parse("github:contents:write@cortexapps/engrams").unwrap();
    assert_eq!(c.provider, "github");
    assert_eq!(c.action, "contents:write"); // action keeps its colon
    assert_eq!(c.resource.as_deref(), Some("cortexapps/engrams"));
    assert_eq!(c.to_wire(), "github:contents:write@cortexapps/engrams");
}

#[test]
fn parses_without_resource() {
    let c = Capability::parse("datadog:logs:read").unwrap();
    assert_eq!(c.provider, "datadog");
    assert_eq!(c.action, "logs:read");
    assert_eq!(c.resource, None);
    assert_eq!(c.to_wire(), "datadog:logs:read");
}

#[test]
fn rejects_malformed() {
    for bad in ["", "github", "github:", ":write", "github:write@", "@x"] {
        assert!(
            Capability::parse(bad).is_err(),
            "expected `{bad}` to reject"
        );
    }
}

#[test]
fn covers_requires_same_provider_and_action() {
    let bound = Capability::parse("github:issues:write").unwrap();
    assert!(bound.covers(&Capability::parse("github:issues:write").unwrap()));
    assert!(!bound.covers(&Capability::parse("github:contents:write").unwrap()));
    assert!(!bound.covers(&Capability::parse("datadog:issues:write").unwrap()));
}

#[test]
fn unrestricted_resource_covers_anything() {
    let bound = Capability::parse("github:contents:write").unwrap();
    assert!(bound.covers(&Capability::parse("github:contents:write").unwrap()));
    assert!(bound.covers(&Capability::parse("github:contents:write@a/b").unwrap()));
}

#[test]
fn resource_glob_and_exact() {
    let org = Capability::parse("github:contents:write@cortexapps/*").unwrap();
    assert!(org.covers(&Capability::parse("github:contents:write@cortexapps/engrams").unwrap()));
    assert!(org.covers(&Capability::parse("github:contents:write@cortexapps").unwrap()));
    assert!(!org.covers(&Capability::parse("github:contents:write@other/repo").unwrap()));

    let exact = Capability::parse("github:contents:write@cortexapps/engrams").unwrap();
    assert!(
        exact.covers(&Capability::parse("github:contents:write@cortexapps/engrams").unwrap())
    );
    assert!(
        !exact.covers(&Capability::parse("github:contents:write@cortexapps/other").unwrap())
    );
    // A resource-restricted grant does NOT cover the broader (no-resource) ask.
    assert!(!exact.covers(&Capability::parse("github:contents:write").unwrap()));
}

#[test]
fn clamp_keeps_only_covered_requests() {
    let bound = vec![
        Capability::parse("github:contents:read").unwrap(),
        Capability::parse("datadog:logs:read@*").unwrap(),
    ];
    let requested = vec![
        Capability::parse("github:contents:read").unwrap(), // covered
        Capability::parse("github:contents:write").unwrap(), // not granted: dropped
        Capability::parse("datadog:logs:read@idx-1").unwrap(), // covered by @*
    ];
    let clamped = Capability::clamp(&requested, &bound);
    assert_eq!(clamped.len(), 2);
    assert!(clamped.iter().any(|c| c.action == "contents:read"));
    assert!(clamped.iter().any(|c| c.provider == "datadog"));
    assert!(!clamped.iter().any(|c| c.action == "contents:write"));
}
#[test]
fn malformed_capabilities_are_named_in_the_error() {
    for bad in ["github", ":write", "github:write@"] {
        let err = Capability::parse(bad).unwrap_err();
        assert!(err.0.contains(bad), "{}", err.0);
    }
}

#[test]
fn clamping_twice_changes_nothing() {
    let bound = vec![Capability::parse("github:*:x@a/*").unwrap()];
    let asked = vec![
        Capability::parse("github:*:x@a/b").unwrap(),
        Capability::parse("github:*:x@b/b").unwrap(),
    ];
    let once = Capability::clamp(&asked, &bound);
    assert_eq!(once.len(), 1);
    assert_eq!(Capability::clamp(&once, &bound), once);
}

#[test]
fn wire_form_is_read_back() {
    for wire in ["a:b", "a:b:c@d", "a:b@c@d", "a:b@*"] {
        assert_eq!(Capability::parse(wire).unwrap().to_wire(), wire);
    }
}
