use engram_core::document::{Member, Value};
use engram_core::time::Timestamp;
use engram_core::types::connector_oauth::{
    normalize_scope, ConnectorOAuthBundle, ConnectorOAuthKind, ConnectorOAuthRefreshSpec,
    CONNECTOR_OAUTH_BUNDLE_VERSION,
};

fn bundle() -> ConnectorOAuthBundle {
    ConnectorOAuthBundle {
        v: CONNECTOR_OAUTH_BUNDLE_VERSION,
        kind: ConnectorOAuthKind::Oauth2AuthorizationCode,
        access_token: "at".into(),
        token_type: "bearer".into(),
        refresh_token: Some("rt".into()),
        scope: Some("read,write".into()),
        // 2026-08-03T00:00:00Z and a day later.
        obtained_at: Timestamp { secs: 1_785_715_200, nanos: 0 },
        expires_at: Some(Timestamp { secs: 1_785_801_600, nanos: 0 }),
        refresh: Some(ConnectorOAuthRefreshSpec {
            token_url: "https://api.linear.app/oauth/token".into(),
            client_id_ref: "linear.client_id".into(),
            client_secret_ref: "linear.client_secret".into(),
        }),
    }
}

fn json(b: &ConnectorOAuthBundle) -> String {
    String::from_utf8(b.to_json().unwrap()).unwrap()
}

#[test]
fn round_trips() {
    let b = bundle();
    let parsed = ConnectorOAuthBundle::from_json(&b.to_json().unwrap()).unwrap();
    assert_eq!(parsed, b);
    assert!(parsed.refreshable());
}

#[test]
fn bundle_is_written_in_the_order_of_its_fields() {
    assert_eq!(
        json(&bundle()),
        concat_all(&[
            r#"{"v":1,"kind":"oauth2_authorization_code","access_token":"at","#,
            r#""token_type":"bearer","refresh_token":"rt","scope":"read,write","#,
            r#""obtained_at":"2026-08-03T00:00:00Z","expires_at":"2026-08-04T00:00:00Z","#,
            r#""refresh":{"token_url":"https://api.linear.app/oauth/token","#,
            r#""client_id_ref":"linear.client_id","client_secret_ref":"linear.client_secret"}}"#,
        ])
    );
}

fn concat_all(parts: &[&str]) -> String {
    parts.concat()
}

#[test]
fn tolerates_unknown_fields_within_version() {
    let text = json(&bundle());
    let text = format!("{},\"future_field\":\"ignored\"}}", &text[..text.len() - 1]);
    let parsed = ConnectorOAuthBundle::from_json(text.as_bytes()).unwrap();
    assert_eq!(parsed, bundle());
}

#[test]
fn rejects_future_version() {
    let text = json(&bundle()).replace("\"v\":1", "\"v\":2");
    let err = ConnectorOAuthBundle::from_json(text.as_bytes()).unwrap_err();
    assert!(err.contains("newer than supported"), "{err}");
}

#[test]
fn non_refreshing_bundle() {
    let b = ConnectorOAuthBundle {
        refresh_token: None,
        refresh: None,
        expires_at: None,
        ..bundle()
    };
    assert!(!b.refreshable());
    let parsed = ConnectorOAuthBundle::from_json(&b.to_json().unwrap()).unwrap();
    assert_eq!(parsed, b);
}

#[test]
fn scope_normalizes_string_and_array() {
    let text = |s: &str| Value::Text(s.into());
    let s = text("read write");
    assert_eq!(
        normalize_scope(Some(&s), ","),
        Some("read write".to_owned())
    );
    let arr = Value::List(vec![text("read"), text(" write "), text("")]);
    assert_eq!(
        normalize_scope(Some(&arr), ","),
        Some("read,write".to_owned())
    );
    assert_eq!(normalize_scope(Some(&text("")), ","), None);
    assert_eq!(normalize_scope(Some(&Value::Integer(42)), ","), None);
    assert_eq!(normalize_scope(None, ","), None);
}

#[test]
fn bundles_of_the_wrong_shape_are_refused() {
    for bad in ["", "[]", "{}", r#"{"v":"1"}"#, r#"{"v":1}"#] {
        assert!(ConnectorOAuthBundle::from_json(bad.as_bytes()).is_err(), "{bad}");
    }
    assert_eq!(
        ConnectorOAuthBundle::from_json(&[0xff]).unwrap_err(),
        "bundle version probe: invalid UTF-8"
    );
    let doc = Value::Table(vec![Member {
        key: "v".into(),
        value: Value::Integer(1),
    }]);
    assert!(ConnectorOAuthBundle::from_document(&doc).is_err());
}

#[test]
fn fractions_of_a_second_are_kept() {
    let b = ConnectorOAuthBundle {
        obtained_at: Timestamp { secs: 1_785_715_200, nanos: 120_000_000 },
        ..bundle()
    };
    assert!(json(&b).contains("2026-08-03T00:00:00.120Z"), "{}", json(&b));
    assert_eq!(ConnectorOAuthBundle::from_json(&b.to_json().unwrap()).unwrap(), b);
}

#[test]
fn parts_of_a_bundle_are_read_in_their_other_forms() {
    let b = bundle();
    let json = String::from_utf8(b.to_json().unwrap()).unwrap();
    let kind = json.replace(
        "\"oauth2_authorization_code\"",
        "{\"oauth2_authorization_code\":null}",
    );
    assert_ne!(kind, json);
    assert_eq!(ConnectorOAuthBundle::from_json(kind.as_bytes()).unwrap(), b);
    assert!(ConnectorOAuthBundle::from_json(b"[1]").is_err());
}
