use engram_core::error::{BoxError, SecretError};
use engram_core::text_map::TextMap;
use engram_core::traits::secrets::{
    LayerStep, LayeredSecretStore, Resolution, SecretBundle, SecretContext, SecretNeed,
    StaticSecretStore,
};
use engram_core::types::image::SecretSchema;

enum Backend {
    Fixed(StaticSecretStore),
    AlwaysErr,
}

impl Backend {
    fn get(&self, name: &str) -> Result<Option<String>, SecretError> {
        match self {
            Backend::Fixed(s) => s.get(&ctx(), name, &SecretSchema::default()),
            Backend::AlwaysErr => Err(SecretError::Backend(BoxError::new("boom"))),
        }
    }
}

fn ctx() -> SecretContext<'static> {
    SecretContext {
        repo: "cortex/api",
        image_tag: "warm-1",
    }
}

fn map(pairs: &[(&str, &str)]) -> TextMap {
    let mut m = TextMap::new();
    for (k, v) in pairs {
        m.insert(k.to_string(), v.to_string());
    }
    m
}

fn fixed(pairs: &[(&str, &str)]) -> Backend {
    Backend::Fixed(StaticSecretStore::new(map(pairs)))
}

fn get(layered: &LayeredSecretStore<Backend>, name: &str) -> Result<Option<String>, SecretError> {
    let mut step = layered.start();
    loop {
        match step {
            LayerStep::Answer(answer) => return answer,
            LayerStep::Ask(i) => step = layered.step(i, layered.backends[i].get(name)),
        }
    }
}

#[test]
fn first_backend_with_a_hit_wins() {
    let layered = LayeredSecretStore::new(vec![
        fixed(&[("A", "from-first")]),
        fixed(&[("A", "from-second"), ("B", "from-second")]),
    ]);
    assert_eq!(get(&layered, "A").unwrap(), Some("from-first".into()));
    assert_eq!(get(&layered, "B").unwrap(), Some("from-second".into()));
    assert_eq!(get(&layered, "MISSING").unwrap(), None);
}

#[test]
fn a_backend_error_propagates_rather_than_falling_through() {
    let layered = LayeredSecretStore::new(vec![Backend::AlwaysErr, fixed(&[("A", "fallback")])]);
    assert!(get(&layered, "A").is_err());
}

#[test]
fn an_earlier_hit_shields_a_later_erroring_backend() {
    let layered = LayeredSecretStore::new(vec![
        fixed(&[("github_app.app_id", "123")]),
        Backend::AlwaysErr,
    ]);
    assert_eq!(
        get(&layered, "github_app.app_id").unwrap(),
        Some("123".into())
    );
}

#[test]
fn no_layers_find_nothing() {
    let layered: LayeredSecretStore<Backend> = LayeredSecretStore::new(vec![]);
    assert_eq!(get(&layered, "A").unwrap(), None);
}

fn need(name: &str, required: bool) -> SecretNeed {
    SecretNeed {
        name: name.into(),
        schema: SecretSchema {
            required,
            ..SecretSchema::default()
        },
    }
}

fn resolve(
    needs: Vec<SecretNeed>,
    overrides: &[(&str, &str)],
    store: &Backend,
    asked: &mut Vec<String>,
) -> Result<SecretBundle, SecretError> {
    let mut r = Resolution::new(needs, map(overrides));
    while let Some(i) = r.next() {
        let name = r.needs[i].name.clone();
        asked.push(name.clone());
        let found = store.get(&name)?;
        r.answer(found)?;
    }
    Ok(r.finish())
}

#[test]
fn resolution_takes_overrides_before_the_store() {
    let store = fixed(&[("A", "store-a"), ("B", "store-b")]);
    let mut asked = Vec::new();
    let bundle = resolve(
        vec![need("A", true), need("B", true), need("C", false)],
        &[("A", "pasted")],
        &store,
        &mut asked,
    )
    .unwrap();
    assert_eq!(bundle.get("A").unwrap().value, "pasted");
    assert_eq!(bundle.get("B").unwrap().value, "store-b");
    assert!(bundle.get("B").unwrap().schema.required);
    assert!(bundle.get("C").is_none());
    assert_eq!(bundle.secrets.len(), 2);
    assert_eq!(asked, vec!["B", "C"]);
}

#[test]
fn resolution_fails_where_a_required_secret_is_absent() {
    let store = fixed(&[]);
    let mut asked = Vec::new();
    let err = resolve(vec![need("A", true), need("B", true)], &[], &store, &mut asked).unwrap_err();
    assert_eq!(
        err.to_string(),
        "secret backend error: required secret `A` is not available in this deployment"
    );
    assert_eq!(asked, vec!["A"]);
}

#[test]
fn resolution_passes_on_a_failure_of_the_store() {
    let mut asked = Vec::new();
    let err = resolve(vec![need("A", false)], &[], &Backend::AlwaysErr, &mut asked).unwrap_err();
    assert_eq!(err.to_string(), "secret backend error: boom");
}

#[test]
fn resolution_of_nothing_is_empty() {
    let mut asked = Vec::new();
    let bundle = resolve(vec![], &[("A", "x")], &fixed(&[]), &mut asked).unwrap();
    assert!(bundle.secrets.is_empty());
    assert!(bundle.get("A").is_none());
    assert!(SecretBundle::default().get("A").is_none());
}
