use lake_berg::builder::{Builder, LoadCatalog};
use lake_berg::catalog::{iceberg_catalog, reads_environment, CatalogKind, CatalogLoad};
use lake_berg::error::{staged_writes_locked, LakeError};
use lake_berg::locator::Url;
use lake_berg::props::{collect_s3_props, env_mapping, env_s3_props, Props};
use std::marker::PhantomData;

#[derive(Clone, Debug, Default)]
struct Registry;

fn vars(pairs: &[(&str, &str)]) -> Vec<(String, String)> {
    pairs
        .iter()
        .map(|(k, v)| (k.to_string(), v.to_string()))
        .collect()
}

fn prop(props: &Props, name: &str) -> Option<String> {
    props.get(&name.to_string()).cloned()
}

fn load(url: &str, warehouse: Option<&str>, env: &[(&str, &str)]) -> Result<CatalogLoad, LakeError<()>> {
    iceberg_catalog(
        &Url::parse(url).unwrap(),
        warehouse.map(|w| w.to_string()),
        vars(env),
    )
}

#[test]
fn url_parse() {
    let uri = Url::parse("http://localhost:8181").unwrap();
    assert_eq!("http://localhost:8181/", uri.as_str());
    assert_eq!("http", uri.scheme());
    assert!(uri.has_host());
    assert_eq!(Some("localhost"), uri.host_str());
    assert_eq!(Some(8181), uri.port());
    assert_eq!("/", uri.path());

    let uri = Url::parse("http://localhost:8181/catalog").unwrap();
    assert_eq!("http://localhost:8181/catalog", uri.as_str());
    assert_eq!("http", uri.scheme());
    assert!(uri.has_host());
    assert_eq!(Some("localhost"), uri.host_str());
    assert_eq!(Some(8181), uri.port());
    assert_eq!("/catalog", uri.path());
}

#[test]
fn url_without_a_host() {
    let uri = Url::parse("data:text/plain,Stuff").unwrap();
    assert!(!uri.has_host());
    assert_eq!(None, uri.host_str());
    assert_eq!(None, uri.port());
}

#[test]
fn text_that_is_no_url() {
    let err = Url::parse("catalog").unwrap_err();
    assert_eq!("relative URL without a base", err.cause.to_string());
    let err = Url::parse("http://localhost:99999").unwrap_err();
    assert_eq!("invalid port number", err.cause.to_string());
}

#[test]
fn variables_map_to_properties() {
    assert_eq!(Some("s3.access-key-id"), env_mapping("AWS_ACCESS_KEY_ID"));
    assert_eq!(Some("s3.secret-access-key"), env_mapping("AWS_SECRET_ACCESS_KEY"));
    assert_eq!(Some("s3.region"), env_mapping("AWS_DEFAULT_REGION"));
    assert_eq!(Some("s3.endpoint"), env_mapping("AWS_ENDPOINT"));
    assert_eq!(None, env_mapping("AWS_REGION"));
    assert_eq!(None, env_mapping("aws_endpoint"));
    assert_eq!(None, env_mapping(""));
}

#[test]
fn other_variables_are_left_out() {
    let props = env_s3_props(vars(&[
        ("HOME", "/root"),
        ("AWS_ENDPOINT", "http://minio:9000"),
        ("AWS_ALLOW_HTTP", "true"),
        ("AWS_DEFAULT_REGION", "eu-west-2"),
    ]));
    assert_eq!(
        vars(&[("s3.endpoint", "http://minio:9000"), ("s3.region", "eu-west-2")]),
        props
    );
}

#[test]
fn last_variable_of_a_name_stays() {
    let props = collect_s3_props(vars(&[
        ("AWS_ENDPOINT", "one"),
        ("AWS_DEFAULT_REGION", "r"),
        ("AWS_ENDPOINT", "two"),
    ]));
    assert_eq!(Some("two".to_string()), prop(&props, "s3.endpoint"));
    assert_eq!(Some("r".to_string()), prop(&props, "s3.region"));
    assert_eq!(None, prop(&props, "s3.access-key-id"));
}

#[test]
fn rest_catalog_without_a_path() {
    let load = load("http://localhost:8181", None, &[]).unwrap();
    assert_eq!(CatalogKind::Rest, load.kind);
    assert_eq!("rest", load.name);
    assert_eq!(Some("http://localhost:8181".to_string()), prop(&load.props, "uri"));
    assert_eq!(None, prop(&load.props, "warehouse"));
}

#[test]
fn rest_catalog_has_a_default_port() {
    let plain = load("http://catalog", None, &[]).unwrap();
    assert_eq!(Some("http://catalog:80".to_string()), prop(&plain.props, "uri"));
    let secure = load("https://catalog/", None, &[]).unwrap();
    assert_eq!(Some("https://catalog:80".to_string()), prop(&secure.props, "uri"));
}

#[test]
fn rest_catalog_with_a_path() {
    let load = load(
        "https://catalog:8181/v1?x=1",
        Some("lake"),
        &[("AWS_ENDPOINT", "http://minio:9000"), ("PATH", "/bin")],
    )
    .unwrap();
    assert_eq!(Some("https://catalog:8181/v1?x=1".to_string()), prop(&load.props, "uri"));
    assert_eq!(Some("lake".to_string()), prop(&load.props, "warehouse"));
    assert_eq!(Some("http://minio:9000".to_string()), prop(&load.props, "s3.endpoint"));
    assert_eq!(3, load.props.entries().len());
}

#[test]
fn rest_uri_is_not_taken_from_the_environment() {
    let load = load("http://catalog:1", None, &[("uri", "x"), ("warehouse", "y")]).unwrap();
    assert_eq!(Some("http://catalog:1".to_string()), prop(&load.props, "uri"));
    assert_eq!(None, prop(&load.props, "warehouse"));
}

#[test]
fn memory_catalog_has_a_warehouse_and_nothing_else() {
    let unnamed = load("memory://", None, &[("AWS_ENDPOINT", "x")]).unwrap();
    assert_eq!(CatalogKind::Memory, unnamed.kind);
    assert_eq!("memory", unnamed.name);
    assert_eq!(
        vars(&[("warehouse", "memory://warehouse")]),
        *unnamed.props.entries()
    );
    let named = load("memory://x/y", Some("here"), &[]).unwrap();
    assert_eq!(vars(&[("warehouse", "here")]), *named.props.entries());
}

#[test]
fn only_rest_catalogs_read_the_environment() {
    let reads = |url: &str| reads_environment(&Url::parse(url).unwrap());
    assert!(reads("http://localhost:8181"));
    assert!(reads("https://catalog/v1"));
    assert!(!reads("memory://"));
    assert!(!reads("s3://lake"));
}

#[test]
fn other_schemes_have_no_catalog() {
    match load("s3://lake", None, &[]) {
        Err(LakeError::UnsupportedIcebergCatalogUrl(url)) => assert_eq!("s3://lake", url.as_str()),
        other => panic!("{other:?}"),
    }
}

#[test]
fn builder_hands_its_settings_on() {
    let built: Result<LoadCatalog<Registry>, LakeError<()>> =
        Builder::<PhantomData<Url>, PhantomData<Url>, PhantomData<Registry>>::default()
            .location(Url::parse("s3://lake").unwrap())
            .catalog(Url::parse("http://localhost:8181").unwrap())
            .warehouse(Some("w".to_string()))
            .schema_registry(Registry)
            .namespace(Some("n".to_string()))
            .build(vars(&[]));
    let step = built.unwrap();
    assert_eq!("n", step.namespace);
    assert_eq!(CatalogKind::Rest, step.load.kind);
    assert_eq!(Some("w".to_string()), prop(&step.load.props, "warehouse"));
}

#[test]
fn builder_defaults() {
    let builder = Builder::<PhantomData<Url>, PhantomData<Url>, PhantomData<Registry>>::default();
    assert_eq!(None, builder.namespace);
    assert_eq!(None, builder.warehouse);
    let built: Result<LoadCatalog<Registry>, LakeError<()>> = builder
        .location(Url::parse("memory://").unwrap())
        .catalog(Url::parse("memory://").unwrap())
        .schema_registry(Registry)
        .build(vars(&[]));
    assert_eq!("tansu", built.unwrap().namespace);
}

#[test]
fn builder_refuses_an_unsupported_catalog() {
    let built: Result<LoadCatalog<Registry>, LakeError<()>> =
        Builder::<PhantomData<Url>, PhantomData<Url>, PhantomData<Registry>>::default()
            .location(Url::parse("memory://").unwrap())
            .catalog(Url::parse("file:///tmp").unwrap())
            .schema_registry(Registry)
            .build(vars(&[]));
    assert!(matches!(built, Err(LakeError::UnsupportedIcebergCatalogUrl(_))));
}

#[test]
fn lock_failure_is_put_in_words() {
    match staged_writes_locked::<()>("poisoned") {
        LakeError::Message(message) => {
            assert_eq!("unable to lock iceberg staged writes: poisoned", message)
        }
        other => panic!("{other:?}"),
    }
}

#[test]
fn builder_clone_has_the_same_settings() {
    let builder = Builder::<PhantomData<Url>, PhantomData<Url>, PhantomData<Registry>>::default()
        .catalog(Url::parse("memory://").unwrap())
        .namespace(Some("n".to_string()));
    let copy = builder.clone();
    assert_eq!(builder.catalog.as_str(), copy.catalog.as_str());
    assert_eq!(Some("n".to_string()), copy.namespace);
    assert_eq!(None, copy.warehouse);
}
