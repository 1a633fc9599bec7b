//! Which catalog a URL stands for, and the properties to load it with.

use crate::error::{LakeError, LakeErrorView};
use crate::keyed::KeyedMap;
use crate::locator::{optional_text, Url, UrlView};
use crate::props::{
    collect_s3_props, collected, is_s3_prop, law_environment_sets_s3_props_only,
    law_last_variable_sets_the_prop, law_named_props_are_set, names_prop, pair_texts, props_texts,
    s3_props, set_prop, Props,
};
use crate::text::{decimal, decimal_text, same_text};
use vstd::prelude::*;
use vstd::string::*;

verus! {

/// The name of `iceberg_catalog_rest::REST_CATALOG_PROP_URI`. The contract gives the text of the
/// constant.
#[verifier::external_body]
fn rest_catalog_prop_uri() -> (name: &'static str)
    ensures
        name@ == "uri"@,
{
    iceberg_catalog_rest::REST_CATALOG_PROP_URI
}

/// The name of `iceberg_catalog_rest::REST_CATALOG_PROP_WAREHOUSE`. The contract gives the text of
/// the constant.
#[verifier::external_body]
fn rest_catalog_prop_warehouse() -> (name: &'static str)
    ensures
        name@ == "warehouse"@,
{
    iceberg_catalog_rest::REST_CATALOG_PROP_WAREHOUSE
}

/// The kinds of catalogs.
#[derive(Clone, Copy, Debug, PartialEq, Eq, Structural)]
pub enum CatalogKind {
    /// A catalog behind a REST service.
    Rest,
    /// A catalog in memory.
    Memory,
}

/// How to load a catalog: its kind, the name to load it under, and its properties.
#[derive(Debug)]
pub struct CatalogLoad {
    pub kind: CatalogKind,
    pub name: &'static str,
    pub props: Props,
}

/// The mathematical value of a [`CatalogLoad`].
#[verifier::ext_equal]
pub struct CatalogLoadView {
    pub kind: CatalogKind,
    pub name: Seq<char>,
    pub props: Map<Seq<char>, Seq<char>>,
}

impl View for CatalogLoad {
    type V = CatalogLoadView;

    open spec fn view(&self) -> CatalogLoadView {
        CatalogLoadView { kind: self.kind, name: self.name@, props: props_texts(self.props) }
    }
}

/// Whether the URL is one of a REST service.
pub open spec fn is_rest(url: UrlView) -> bool {
    url.scheme == "http"@ || url.scheme == "https"@
}

/// Whether the URL is one of a catalog in memory.
pub open spec fn is_memory(url: UrlView) -> bool {
    url.scheme == "memory"@
}

/// The URI of the REST service at `url`: the URL as it is, or, without a path, the scheme, the host
/// and the port, with `localhost` and port 80 where the URL names none.
pub open spec fn rest_uri(url: UrlView) -> Seq<char> {
    if url.path == "/"@ {
        url.scheme + "://"@ + (match url.host {
            Some(host) => host,
            None => "localhost"@,
        }) + ":"@ + decimal(
            match url.port {
                Some(port) => port as int,
                None => 80,
            },
        )
    } else {
        url.serialization
    }
}

/// The properties of the REST catalog at `url`: those that the environment sets, the URI of the
/// service, and the warehouse where one is given.
pub open spec fn rest_props(
    url: UrlView,
    warehouse: Option<Seq<char>>,
    vars: Seq<(Seq<char>, Seq<char>)>,
) -> Map<Seq<char>, Seq<char>> {
    let props = collected(s3_props(vars)).insert("uri"@, rest_uri(url));
    match warehouse {
        Some(name) => props.insert("warehouse"@, name),
        None => props,
    }
}

/// The properties of a catalog in memory: the warehouse, and nothing else.
pub open spec fn memory_props(warehouse: Option<Seq<char>>) -> Map<Seq<char>, Seq<char>> {
    Map::<Seq<char>, Seq<char>>::empty().insert(
        "warehouse"@,
        match warehouse {
            Some(name) => name,
            None => "memory://warehouse"@,
        },
    )
}

/// How to load the catalog at `url`, or why there is none there.
pub open spec fn catalog_load<E>(
    url: UrlView,
    warehouse: Option<Seq<char>>,
    vars: Seq<(Seq<char>, Seq<char>)>,
) -> Result<CatalogLoadView, LakeErrorView<E>> {
    if is_rest(url) {
        Ok(
            CatalogLoadView {
                kind: CatalogKind::Rest,
                name: "rest"@,
                props: rest_props(url, warehouse, vars),
            },
        )
    } else if is_memory(url) {
        Ok(
            CatalogLoadView {
                kind: CatalogKind::Memory,
                name: "memory"@,
                props: memory_props(warehouse),
            },
        )
    } else {
        Err(LakeErrorView::UnsupportedIcebergCatalogUrl(url))
    }
}

fn service_uri(catalog: &Url) -> (uri: String)
    ensures
        uri@ == rest_uri(catalog@),
{
    if same_text(catalog.path(), "/") {
        let mut uri: String = catalog.scheme().to_owned();
        uri.append("://");
        match catalog.host_str() {
            Some(host) => {
                uri.append(host);
            },
            None => {
                uri.append("localhost");
            },
        }
        uri.append(":");
        let port: u16 = match catalog.port() {
            Some(port) => port,
            None => 80,
        };
        uri.append(decimal_text(port as i64).as_str());
        uri
    } else {
        catalog.as_str().to_owned()
    }
}

/// Whether the catalog at the URL `catalog` takes properties from the environment.
pub fn reads_environment(catalog: &Url) -> (reads: bool)
    ensures
        reads == is_rest(catalog@),
{
    let scheme: &str = catalog.scheme();
    same_text(scheme, "http") || same_text(scheme, "https")
}

/// How to load the catalog at the URL `catalog`, in the environment `vars`.
pub fn iceberg_catalog<E>(
    catalog: &Url,
    warehouse: Option<String>,
    vars: Vec<(String, String)>,
) -> (load: Result<CatalogLoad, LakeError<E>>)
    ensures
        match load {
            Ok(load) => catalog_load::<E>(
                catalog@,
                optional_text(warehouse),
                pair_texts(vars@),
            ) == Ok::<CatalogLoadView, LakeErrorView<E>>(load@),
            Err(err) => catalog_load::<E>(
                catalog@,
                optional_text(warehouse),
                pair_texts(vars@),
            ) == Err::<CatalogLoadView, LakeErrorView<E>>(err@),
        },
{
    if reads_environment(catalog) {
        let mut props: Props = collect_s3_props(vars);
        set_prop(&mut props, rest_catalog_prop_uri(), service_uri(catalog));
        match warehouse {
            Some(name) => {
                set_prop(&mut props, rest_catalog_prop_warehouse(), name);
            },
            None => {},
        }
        Ok(CatalogLoad { kind: CatalogKind::Rest, name: "rest", props })
    } else if same_text(catalog.scheme(), "memory") {
        let mut props: Props = KeyedMap::new();
        assert(props_texts(props) =~= Map::empty());
        let name: String = match warehouse {
            Some(name) => name,
            None => "memory://warehouse".to_owned(),
        };
        set_prop(&mut props, rest_catalog_prop_warehouse(), name);
        Ok(CatalogLoad { kind: CatalogKind::Memory, name: "memory", props })
    } else {
        Err(LakeError::UnsupportedIcebergCatalogUrl(catalog.clone()))
    }
}

/// Only a REST catalog depends on the environment: what is loaded for another URL is the same in any
/// two environments.
pub proof fn law_only_rest_reads_the_environment<E>(
    url: UrlView,
    warehouse: Option<Seq<char>>,
    vars: Seq<(Seq<char>, Seq<char>)>,
    others: Seq<(Seq<char>, Seq<char>)>,
)
    requires
        !is_rest(url),
    ensures
        catalog_load::<E>(url, warehouse, vars) == catalog_load::<E>(url, warehouse, others),
{
}

/// Every REST catalog is loaded with the URI of its service, whatever the environment and the
/// warehouse are.
pub proof fn law_rest_catalog_has_its_uri(
    url: UrlView,
    warehouse: Option<Seq<char>>,
    vars: Seq<(Seq<char>, Seq<char>)>,
)
    ensures
        rest_props(url, warehouse, vars).contains_key("uri"@),
        rest_props(url, warehouse, vars)["uri"@] == rest_uri(url),
{
    reveal_strlit("uri");
    reveal_strlit("warehouse");
    assert("uri"@.len() != "warehouse"@.len());
}

/// A REST catalog is loaded with a warehouse just where one is given, and with that one: the
/// environment gives none.
pub proof fn law_rest_catalog_has_the_given_warehouse(
    url: UrlView,
    warehouse: Option<Seq<char>>,
    vars: Seq<(Seq<char>, Seq<char>)>,
)
    ensures
        rest_props(url, warehouse, vars).contains_key("warehouse"@) <==> warehouse is Some,
        warehouse is Some ==> rest_props(url, warehouse, vars)["warehouse"@] == warehouse->0,
{
    reveal_strlit("uri");
    reveal_strlit("warehouse");
    reveal_strlit("s3.access-key-id");
    reveal_strlit("s3.secret-access-key");
    reveal_strlit("s3.region");
    reveal_strlit("s3.endpoint");
    assert("uri"@.len() != "warehouse"@.len());
    assert("warehouse"@[0] == 'w');
    assert("s3.access-key-id"@[0] == 's');
    assert("s3.secret-access-key"@[0] == 's');
    assert("s3.region"@[0] == 's');
    assert("s3.endpoint"@[0] == 's');
    if collected(s3_props(vars)).contains_key("warehouse"@) {
        law_environment_sets_s3_props_only(vars, "warehouse"@);
        assert(is_s3_prop("warehouse"@));
    }
}

proof fn lemma_schemes_differ()
    ensures
        "memory"@ != "http"@,
        "memory"@ != "https"@,
{
    reveal_strlit("memory");
    reveal_strlit("http");
    reveal_strlit("https");
    assert("memory"@[0] == 'm' && "http"@[0] == 'h' && "https"@[0] == 'h');
}

proof fn lemma_prop_names_are_apart(variable: Seq<char>, name: Seq<char>)
    requires
        names_prop(variable, name),
    ensures
        name != "uri"@,
        name != "warehouse"@,
{
    reveal_strlit("uri");
    reveal_strlit("warehouse");
    reveal_strlit("s3.access-key-id");
    reveal_strlit("s3.secret-access-key");
    reveal_strlit("s3.region");
    reveal_strlit("s3.endpoint");
    assert("uri"@[0] == 'u' && "warehouse"@[0] == 'w');
    assert(name[0] == 's');
}

/// An `http` or `https` URL stands for the REST catalog at this URL: where the URL has a path, the
/// catalog is asked for at the URL as it is spelled, whatever its host and port are; where it has
/// none, at its scheme, host and port, `localhost` and 80 where it names none.
pub proof fn law_rest_catalog_is_at_its_url<E>(
    url: UrlView,
    warehouse: Option<Seq<char>>,
    vars: Seq<(Seq<char>, Seq<char>)>,
)
    requires
        url.scheme == "http"@ || url.scheme == "https"@,
    ensures
        ({
            let load = catalog_load::<E>(url, warehouse, vars);
            &&& load is Ok
            &&& load->Ok_0.kind == CatalogKind::Rest
            &&& load->Ok_0.name == "rest"@
            &&& load->Ok_0.props.contains_key("uri"@)
            &&& url.path != "/"@ ==> load->Ok_0.props["uri"@] == url.serialization
            &&& url.path == "/"@ && url.host is Some && url.port is Some
                ==> load->Ok_0.props["uri"@] == url.scheme + "://"@ + url.host->0 + ":"@ + decimal(
                url.port->0 as int,
            )
            &&& url.path == "/"@ && url.host is Some && url.port is None
                ==> load->Ok_0.props["uri"@] == url.scheme + "://"@ + url.host->0 + ":"@ + decimal(
                80,
            )
            &&& url.path == "/"@ && url.host is None && url.port is Some
                ==> load->Ok_0.props["uri"@] == url.scheme + "://"@ + "localhost"@ + ":"@ + decimal(
                url.port->0 as int,
            )
            &&& url.path == "/"@ && url.host is None && url.port is None
                ==> load->Ok_0.props["uri"@] == url.scheme + "://"@ + "localhost"@ + ":"@ + decimal(
                80,
            )
        }),
{
    law_rest_catalog_has_its_uri(url, warehouse, vars);
}

/// A REST catalog gets the properties of an S3 store that variables of the environment name, with a
/// warehouse and without one. Besides these it has the URI, the warehouse where one is given, and
/// nothing else.
pub proof fn law_rest_catalog_gets_the_environment<E>(
    url: UrlView,
    warehouse: Option<Seq<char>>,
    vars: Seq<(Seq<char>, Seq<char>)>,
    name: Seq<char>,
)
    requires
        url.scheme == "http"@ || url.scheme == "https"@,
    ensures
        ({
            let load = catalog_load::<E>(url, warehouse, vars);
            &&& load is Ok
            &&& load->Ok_0.props.contains_key(name) <==> {
                ||| name == "uri"@
                ||| name == "warehouse"@ && warehouse is Some
                ||| exists|i: int| 0 <= i < vars.len() && names_prop((#[trigger] vars[i]).0, name)
            }
            &&& warehouse is Some ==> load->Ok_0.props["warehouse"@] == warehouse->0
        }),
{
    law_named_props_are_set(vars, name);
    law_rest_catalog_has_its_uri(url, warehouse, vars);
    law_rest_catalog_has_the_given_warehouse(url, warehouse, vars);
}

/// The last variable that names a property of an S3 store gives it its value in a REST catalog, with
/// a warehouse and without one.
pub proof fn law_rest_catalog_gets_each_variable<E>(
    url: UrlView,
    warehouse: Option<Seq<char>>,
    vars: Seq<(Seq<char>, Seq<char>)>,
    name: Seq<char>,
    i: int,
)
    requires
        url.scheme == "http"@ || url.scheme == "https"@,
        0 <= i < vars.len(),
        names_prop(vars[i].0, name),
        forall|j: int| i < j < vars.len() ==> !names_prop((#[trigger] vars[j]).0, name),
    ensures
        ({
            let load = catalog_load::<E>(url, warehouse, vars);
            &&& load is Ok
            &&& load->Ok_0.props.contains_key(name)
            &&& load->Ok_0.props[name] == vars[i].1
        }),
{
    law_last_variable_sets_the_prop(vars, name, i);
    lemma_prop_names_are_apart(vars[i].0, name);
}

/// A `memory` URL stands for a catalog in memory, whatever its host and path are: it has the warehouse
/// that is given, or `memory://warehouse`, and no other property.
pub proof fn law_memory_catalog_has_its_warehouse<E>(
    url: UrlView,
    warehouse: Option<Seq<char>>,
    vars: Seq<(Seq<char>, Seq<char>)>,
    name: Seq<char>,
)
    requires
        url.scheme == "memory"@,
    ensures
        ({
            let load = catalog_load::<E>(url, warehouse, vars);
            &&& load is Ok
            &&& load->Ok_0.kind == CatalogKind::Memory
            &&& load->Ok_0.name == "memory"@
            &&& load->Ok_0.props.contains_key(name) <==> name == "warehouse"@
            &&& warehouse is Some ==> load->Ok_0.props["warehouse"@] == warehouse->0
            &&& warehouse is None ==> load->Ok_0.props["warehouse"@] == "memory://warehouse"@
        }),
{
    lemma_schemes_differ();
}

/// There is a catalog for the schemes `http`, `https` and `memory`, and for no other: a URL of
/// another scheme is refused by an error that holds the URL.
pub proof fn law_other_schemes_are_refused<E>(
    url: UrlView,
    warehouse: Option<Seq<char>>,
    vars: Seq<(Seq<char>, Seq<char>)>,
)
    ensures
        ({
            let load = catalog_load::<E>(url, warehouse, vars);
            &&& load is Ok <==> {
                ||| url.scheme == "http"@
                ||| url.scheme == "https"@
                ||| url.scheme == "memory"@
            }
            &&& load is Err ==> load->Err_0
                == LakeErrorView::<E>::UnsupportedIcebergCatalogUrl(url)
        }),
{
}

/// [`iceberg_catalog`] refuses a URL of another scheme than `http`, `https` and `memory`, and no other
/// URL.
pub proof fn law_catalog_is_owed_for_three_schemes<E>(
    catalog: &Url,
    warehouse: Option<String>,
    vars: Vec<(String, String)>,
    load: Result<CatalogLoad, LakeError<E>>,
)
    requires
        call_ensures(iceberg_catalog::<E>, (catalog, warehouse, vars), load),
    ensures
        load is Ok <==> {
            ||| catalog.scheme@ == "http"@
            ||| catalog.scheme@ == "https"@
            ||| catalog.scheme@ == "memory"@
        },
        load is Err ==> load->Err_0@ == LakeErrorView::<E>::UnsupportedIcebergCatalogUrl(catalog@),
{
}

/// [`iceberg_catalog`] loads a catalog in memory with the warehouse alone.
pub proof fn law_memory_catalog_is_loaded<E>(
    catalog: &Url,
    warehouse: Option<String>,
    vars: Vec<(String, String)>,
    load: Result<CatalogLoad, LakeError<E>>,
    name: Seq<char>,
)
    requires
        call_ensures(iceberg_catalog::<E>, (catalog, warehouse, vars), load),
        catalog.scheme@ == "memory"@,
    ensures
        load is Ok,
        load->Ok_0.kind == CatalogKind::Memory,
        load->Ok_0.name@ == "memory"@,
        load->Ok_0.props@.contains_key(name) <==> name == "warehouse"@,
        warehouse is Some ==> load->Ok_0.props@["warehouse"@]@ == warehouse->0@,
        warehouse is None ==> load->Ok_0.props@["warehouse"@]@ == "memory://warehouse"@,
{
    let (given, texts) = (optional_text(warehouse), pair_texts(vars@));
    law_memory_catalog_has_its_warehouse::<E>(catalog@, given, texts, name);
    law_memory_catalog_has_its_warehouse::<E>(catalog@, given, texts, "warehouse"@);
    assert(props_texts(load->Ok_0.props).contains_key("warehouse"@));
    assert(props_texts(load->Ok_0.props).contains_key(name) == load->Ok_0.props@.contains_key(
        name,
    ));
}

/// [`iceberg_catalog`] loads a REST catalog with the URI, with the warehouse where one is given, and
/// with the properties that variables name, and no others.
pub proof fn law_rest_catalog_is_loaded<E>(
    catalog: &Url,
    warehouse: Option<String>,
    vars: Vec<(String, String)>,
    load: Result<CatalogLoad, LakeError<E>>,
    name: Seq<char>,
)
    requires
        call_ensures(iceberg_catalog::<E>, (catalog, warehouse, vars), load),
        catalog.scheme@ == "http"@ || catalog.scheme@ == "https"@,
    ensures
        load is Ok,
        load->Ok_0.kind == CatalogKind::Rest,
        load->Ok_0.name@ == "rest"@,
        load->Ok_0.props@.contains_key(name) <==> {
            ||| name == "uri"@
            ||| name == "warehouse"@ && warehouse is Some
            ||| exists|i: int| 0 <= i < vars@.len() && names_prop((#[trigger] vars@[i]).0@, name)
        },
        catalog.path@ != "/"@ ==> load->Ok_0.props@["uri"@]@ == catalog.serialization@,
        catalog.path@ == "/"@ ==> load->Ok_0.props@["uri"@]@ == catalog.scheme@ + "://"@ + (
        if catalog.host is Some {
            catalog.host->0@
        } else {
            "localhost"@
        }) + ":"@ + decimal(
            if catalog.port is Some {
                catalog.port->0 as int
            } else {
                80
            },
        ),
        warehouse is Some ==> load->Ok_0.props@["warehouse"@]@ == warehouse->0@,
{
    let (given, texts) = (optional_text(warehouse), pair_texts(vars@));
    law_rest_catalog_is_at_its_url::<E>(catalog@, given, texts);
    law_rest_catalog_gets_the_environment::<E>(catalog@, given, texts, name);
    law_rest_catalog_gets_the_environment::<E>(catalog@, given, texts, "warehouse"@);
    assert(props_texts(load->Ok_0.props).contains_key("uri"@));
    assert(warehouse is Some ==> props_texts(load->Ok_0.props).contains_key("warehouse"@));
    assert(props_texts(load->Ok_0.props).contains_key(name) == load->Ok_0.props@.contains_key(
        name,
    ));
    if exists|i: int| 0 <= i < vars@.len() && names_prop((#[trigger] vars@[i]).0@, name) {
        let i = choose|i: int| 0 <= i < vars@.len() && names_prop((#[trigger] vars@[i]).0@, name);
        assert(texts[i].0 == vars@[i].0@);
    }
    if exists|i: int| 0 <= i < texts.len() && names_prop((#[trigger] texts[i]).0, name) {
        let i = choose|i: int| 0 <= i < texts.len() && names_prop((#[trigger] texts[i]).0, name);
        assert(texts[i].0 == vars@[i].0@);
    }
}

/// [`iceberg_catalog`] gives a REST catalog each property that a variable names, with the value of
/// the last variable that names it.
pub proof fn law_rest_catalog_is_loaded_with_variables<E>(
    catalog: &Url,
    warehouse: Option<String>,
    vars: Vec<(String, String)>,
    load: Result<CatalogLoad, LakeError<E>>,
    name: Seq<char>,
    i: int,
)
    requires
        call_ensures(iceberg_catalog::<E>, (catalog, warehouse, vars), load),
        catalog.scheme@ == "http"@ || catalog.scheme@ == "https"@,
        0 <= i < vars@.len(),
        names_prop(vars@[i].0@, name),
        forall|j: int| i < j < vars@.len() ==> !names_prop((#[trigger] vars@[j]).0@, name),
    ensures
        load is Ok,
        load->Ok_0.props@.contains_key(name),
        load->Ok_0.props@[name]@ == vars@[i].1@,
{
    let (given, texts) = (optional_text(warehouse), pair_texts(vars@));
    assert forall|j: int| i < j < texts.len() implies !names_prop((#[trigger] texts[j]).0, name) by {
        assert(texts[j].0 == vars@[j].0@);
    }
    assert(texts[i] == (vars@[i].0@, vars@[i].1@));
    law_rest_catalog_gets_each_variable::<E>(catalog@, given, texts, name, i);
    assert(props_texts(load->Ok_0.props).contains_key(name));
}

/// The environment is read for `http` and `https` URLs, and for no others.
pub proof fn law_http_reads_the_environment(catalog: &Url, reads: bool)
    requires
        call_ensures(reads_environment, (catalog,), reads),
    ensures
        reads <==> catalog.scheme@ == "http"@ || catalog.scheme@ == "https"@,
{
}

} // verus!
