//! The settings of a lake.

use crate::catalog::{catalog_load, iceberg_catalog, CatalogLoad, CatalogLoadView};
use crate::error::{LakeError, LakeErrorView};
use crate::locator::{optional_text, Url};
use crate::props::pair_texts;
use std::marker::PhantomData;
use vstd::prelude::*;

verus! {

/// The settings of a lake, as far as they are made. `C` is the URL of the catalog, `L` that of the
/// lake, and `R` the schema registry; each is a placeholder until it is set.
#[derive(Debug)]
pub struct Builder<C = PhantomData<Url>, L = PhantomData<Url>, R = PhantomData<()>> {
    pub location: L,
    pub catalog: C,
    pub schema_registry: R,
    pub namespace: Option<String>,
    pub warehouse: Option<String>,
}

impl<C: Clone, L: Clone, R: Clone> Clone for Builder<C, L, R> {
    fn clone(&self) -> (builder: Self)
        ensures
            cloned(self.catalog, builder.catalog),
            cloned(self.location, builder.location),
            cloned(self.schema_registry, builder.schema_registry),
            optional_text(builder.namespace) == optional_text(self.namespace),
            optional_text(builder.warehouse) == optional_text(self.warehouse),
    {
        Builder {
            location: self.location.clone(),
            catalog: self.catalog.clone(),
            schema_registry: self.schema_registry.clone(),
            namespace: match &self.namespace {
                Some(name) => Some(name.clone()),
                None => None,
            },
            warehouse: match &self.warehouse {
                Some(name) => Some(name.clone()),
                None => None,
            },
        }
    }
}

impl<C: Default, L: Default, R: Default> Default for Builder<C, L, R> {
    fn default() -> (builder: Self)
        ensures
            call_ensures(C::default, (), builder.catalog),
            call_ensures(L::default, (), builder.location),
            call_ensures(R::default, (), builder.schema_registry),
            builder.namespace is None,
            builder.warehouse is None,
    {
        Builder {
            location: L::default(),
            catalog: C::default(),
            schema_registry: R::default(),
            namespace: None,
            warehouse: None,
        }
    }
}

impl<C, L, R> Builder<C, L, R> {
    /// Sets the location of the lake.
    pub fn location(self, location: Url) -> (builder: Builder<C, Url, R>)
        ensures
            builder == (Builder {
                location,
                catalog: self.catalog,
                schema_registry: self.schema_registry,
                namespace: self.namespace,
                warehouse: self.warehouse,
            }),
    {
        Builder {
            location,
            catalog: self.catalog,
            schema_registry: self.schema_registry,
            namespace: self.namespace,
            warehouse: self.warehouse,
        }
    }

    /// Sets the location of the catalog.
    pub fn catalog(self, catalog: Url) -> (builder: Builder<Url, L, R>)
        ensures
            builder == (Builder {
                location: self.location,
                catalog,
                schema_registry: self.schema_registry,
                namespace: self.namespace,
                warehouse: self.warehouse,
            }),
    {
        Builder {
            location: self.location,
            catalog,
            schema_registry: self.schema_registry,
            namespace: self.namespace,
            warehouse: self.warehouse,
        }
    }

    /// Sets the schema registry.
    pub fn schema_registry<Q>(self, schema_registry: Q) -> (builder: Builder<C, L, Q>)
        ensures
            builder == (Builder {
                location: self.location,
                catalog: self.catalog,
                schema_registry,
                namespace: self.namespace,
                warehouse: self.warehouse,
            }),
    {
        Builder {
            location: self.location,
            catalog: self.catalog,
            schema_registry,
            namespace: self.namespace,
            warehouse: self.warehouse,
        }
    }

    /// Sets the namespace of the tables, or leaves it to the default.
    pub fn namespace(self, namespace: Option<String>) -> (builder: Self)
        ensures
            builder == (Builder { namespace, ..self }),
    {
        Builder { namespace, ..self }
    }

    /// Sets the warehouse of the catalog, or leaves it to the default.
    pub fn warehouse(self, warehouse: Option<String>) -> (builder: Self)
        ensures
            builder == (Builder { warehouse, ..self }),
    {
        Builder { warehouse, ..self }
    }
}

/// The namespace of the tables of a lake: `tansu` where none is set.
pub open spec fn lake_namespace(namespace: Option<Seq<char>>) -> Seq<char> {
    match namespace {
        Some(name) => name,
        None => "tansu"@,
    }
}

/// A lake whose catalog is to be loaded.
#[derive(Debug)]
pub struct LoadCatalog<R> {
    pub load: CatalogLoad,
    pub namespace: String,
    pub schema_registry: R,
}

impl<R> Builder<Url, Url, R> {
    /// Starts to build the lake, in the environment `vars`: the catalog is to be loaded.
    pub fn build<E>(self, vars: Vec<(String, String)>) -> (built: Result<
        LoadCatalog<R>,
        LakeError<E>,
    >)
        ensures
            match built {
                Ok(step) => {
                    &&& catalog_load::<E>(
                        self.catalog@,
                        optional_text(self.warehouse),
                        pair_texts(vars@),
                    ) == Ok::<CatalogLoadView, LakeErrorView<E>>(step.load@)
                    &&& step.namespace@ == lake_namespace(optional_text(self.namespace))
                    &&& step.schema_registry == self.schema_registry
                },
                Err(err) => catalog_load::<E>(
                    self.catalog@,
                    optional_text(self.warehouse),
                    pair_texts(vars@),
                ) == Err::<CatalogLoadView, LakeErrorView<E>>(err@),
            },
    {
        match iceberg_catalog(&self.catalog, self.warehouse, vars) {
            Ok(load) => {
                let namespace: String = match self.namespace {
                    Some(name) => name,
                    None => "tansu".to_owned(),
                };
                Ok(LoadCatalog { load, namespace, schema_registry: self.schema_registry })
            },
            Err(err) => Err(err),
        }
    }
}

/// A lake is built in the namespace that is set, or in `tansu`, with the schema registry that is set.
/// It is refused just where there is no kind of catalog for the scheme of the catalog's URL.
pub proof fn law_lake_is_built_as_set<R, E>(
    builder: Builder<Url, Url, R>,
    vars: Vec<(String, String)>,
    built: Result<LoadCatalog<R>, LakeError<E>>,
)
    requires
        call_ensures(Builder::<Url, Url, R>::build::<E>, (builder, vars), built),
    ensures
        built is Ok <==> {
            ||| builder.catalog.scheme@ == "http"@
            ||| builder.catalog.scheme@ == "https"@
            ||| builder.catalog.scheme@ == "memory"@
        },
        built is Err ==> built->Err_0@ == LakeErrorView::<E>::UnsupportedIcebergCatalogUrl(
            builder.catalog@,
        ),
        built is Ok ==> {
            let step = built->Ok_0;
            &&& builder.namespace is Some ==> step.namespace@ == builder.namespace->0@
            &&& builder.namespace is None ==> step.namespace@ == "tansu"@
            &&& step.schema_registry == builder.schema_registry
            &&& catalog_load::<E>(
                builder.catalog@,
                optional_text(builder.warehouse),
                pair_texts(vars@),
            ) == Ok::<CatalogLoadView, LakeErrorView<E>>(step.load@)
        },
{
}

/// Each setting of a lake is kept as it is made, and leaves the others.
pub proof fn law_settings_are_kept<C, L, R, Q>(
    builder: Builder<C, L, R>,
    url: Url,
    registry: Q,
    text: Option<String>,
    located: Builder<C, Url, R>,
    catalogued: Builder<Url, L, R>,
    registered: Builder<C, L, Q>,
    named: Builder<C, L, R>,
    stored: Builder<C, L, R>,
)
    requires
        call_ensures(Builder::<C, L, R>::location, (builder, url), located),
        call_ensures(Builder::<C, L, R>::catalog, (builder, url), catalogued),
        call_ensures(Builder::<C, L, R>::schema_registry::<Q>, (builder, registry), registered),
        call_ensures(Builder::<C, L, R>::namespace, (builder, text), named),
        call_ensures(Builder::<C, L, R>::warehouse, (builder, text), stored),
    ensures
        located.location == url && located.catalog == builder.catalog && located.schema_registry
            == builder.schema_registry && located.namespace == builder.namespace
            && located.warehouse == builder.warehouse,
        catalogued.location == builder.location && catalogued.catalog == url
            && catalogued.schema_registry == builder.schema_registry && catalogued.namespace
            == builder.namespace && catalogued.warehouse == builder.warehouse,
        registered.location == builder.location && registered.catalog == builder.catalog
            && registered.schema_registry == registry && registered.namespace == builder.namespace
            && registered.warehouse == builder.warehouse,
        named.location == builder.location && named.catalog == builder.catalog
            && named.schema_registry == builder.schema_registry && named.namespace == text
            && named.warehouse == builder.warehouse,
        stored.location == builder.location && stored.catalog == builder.catalog
            && stored.schema_registry == builder.schema_registry && stored.namespace
            == builder.namespace && stored.warehouse == text,
{
}

} // verus!
