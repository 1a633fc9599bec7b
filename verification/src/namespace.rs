//! The namespace of the lake's tables, and how it is brought about.

use crate::keyed::KeyedMap;
use crate::props::Props;
use vstd::prelude::*;

verus! {

/// Makes a namespace of one name by `iceberg::NamespaceIdent::new`, and its text for use in a URL by
/// `iceberg::NamespaceIdent::to_url_string`, which joins the names of the levels of a namespace. The
/// contract claims that the text of a namespace of one level is its name.
#[verifier::external_body]
fn namespace_url_string(name: String) -> (text: String)
    ensures
        text@ == name@,
{
    iceberg::NamespaceIdent::new(name).to_url_string()
}

/// The name of a namespace.
#[derive(Debug)]
pub struct NamespaceIdent {
    pub name: String,
}

impl View for NamespaceIdent {
    type V = Seq<char>;

    open spec fn view(&self) -> Seq<char> {
        self.name@
    }
}

impl NamespaceIdent {
    /// The namespace of this name.
    pub fn new(name: String) -> (ident: Self)
        ensures
            ident@ == name@,
    {
        NamespaceIdent { name }
    }

    /// The namespace as a text for use in a URL.
    pub fn to_url_string(&self) -> (text: String)
        ensures
            text@ == self@,
    {
        namespace_url_string(self.name.clone())
    }
}

impl Clone for NamespaceIdent {
    fn clone(&self) -> (ident: Self)
        ensures
            ident@ == self@,
    {
        NamespaceIdent { name: self.name.clone() }
    }
}

/// The steps that bring a namespace about. `E` is the error of the catalog.
#[derive(Debug)]
pub enum NamespaceStep<E> {
    /// The catalog is to be asked whether it has the namespace.
    Check(CheckNamespace),
    /// The catalog is to create the namespace, without properties.
    Create(CreateNamespace),
    /// The namespace is there, or the catalog failed.
    Finished(Result<NamespaceIdent, E>),
}

/// A namespace that the catalog may have.
#[derive(Debug)]
pub struct CheckNamespace {
    pub ident: NamespaceIdent,
}

/// A namespace that the catalog lacks.
#[derive(Debug)]
pub struct CreateNamespace {
    pub ident: NamespaceIdent,
}

/// The mathematical value of a [`NamespaceStep`].
pub enum NamespaceView<E> {
    Check(Seq<char>),
    Create(Seq<char>),
    Finished(Result<Seq<char>, E>),
}

/// The value of a result that may be a namespace.
pub open spec fn namespace_result<E>(result: Result<NamespaceIdent, E>) -> Result<Seq<char>, E> {
    match result {
        Ok(ident) => Ok(ident@),
        Err(err) => Err(err),
    }
}

impl<E> View for NamespaceStep<E> {
    type V = NamespaceView<E>;

    open spec fn view(&self) -> NamespaceView<E> {
        match *self {
            NamespaceStep::Check(check) => NamespaceView::Check(check.ident@),
            NamespaceStep::Create(create) => NamespaceView::Create(create.ident@),
            NamespaceStep::Finished(result) => NamespaceView::Finished(namespace_result(result)),
        }
    }
}

/// What follows when the catalog has said whether it has the namespace.
pub open spec fn namespace_checked<E>(name: Seq<char>, reply: Result<bool, E>) -> NamespaceView<E> {
    match reply {
        Ok(true) => NamespaceView::Finished(Ok(name)),
        Ok(false) => NamespaceView::Create(name),
        Err(err) => NamespaceView::Finished(Err(err)),
    }
}

/// What follows when the catalog has answered the request to create the namespace.
pub open spec fn namespace_created<E>(name: Seq<char>, reply: Result<(), E>) -> NamespaceView<E> {
    match reply {
        Ok(()) => NamespaceView::Finished(Ok(name)),
        Err(err) => NamespaceView::Finished(Err(err)),
    }
}

/// Starts to bring the namespace `name` about.
pub fn create_namespace<E>(name: String) -> (step: NamespaceStep<E>)
    ensures
        step@ == NamespaceView::<E>::Check(name@),
{
    NamespaceStep::Check(CheckNamespace { ident: NamespaceIdent::new(name) })
}

impl CheckNamespace {
    /// What follows when the catalog has said whether it has the namespace.
    pub fn checked<E>(self, reply: Result<bool, E>) -> (step: NamespaceStep<E>)
        ensures
            step@ == namespace_checked(self.ident@, reply),
    {
        match reply {
            Ok(exists) => if exists {
                NamespaceStep::Finished(Ok(self.ident))
            } else {
                NamespaceStep::Create(CreateNamespace { ident: self.ident })
            },
            Err(err) => NamespaceStep::Finished(Err(err)),
        }
    }
}

impl CreateNamespace {
    /// The properties to create the namespace with: none.
    pub fn props(&self) -> (props: Props)
        ensures
            props@ == Map::<Seq<char>, String>::empty(),
    {
        KeyedMap::new()
    }

    /// What follows when the catalog has answered the request to create the namespace.
    pub fn created<E>(self, reply: Result<(), E>) -> (step: NamespaceStep<E>)
        ensures
            step@ == namespace_created(self.ident@, reply),
    {
        match reply {
            Ok(()) => NamespaceStep::Finished(Ok(self.ident)),
            Err(err) => NamespaceStep::Finished(Err(err)),
        }
    }
}

/// Where the steps for the namespace `name` end, when the catalog answers the question by `exists`
/// and the request, if it comes to that, by `created`.
pub open spec fn namespace_run<E>(
    name: Seq<char>,
    exists: Result<bool, E>,
    created: Result<(), E>,
) -> NamespaceView<E> {
    match namespace_checked(name, exists) {
        NamespaceView::Create(missing) => namespace_created(missing, created),
        step => step,
    }
}

/// The namespace that the steps end with is the one that was asked for, whether it was there or
/// had to be created.
pub proof fn law_namespace_is_the_one_asked_for<E>(
    name: Seq<char>,
    exists: Result<bool, E>,
    created: Result<(), E>,
)
    ensures
        namespace_run(name, exists, created) is Finished,
        namespace_run(name, exists, created)->Finished_0 matches Ok(ident) ==> ident == name,
{
}

/// A namespace that the catalog has is not created again: it does not matter how the catalog would
/// answer that.
pub proof fn law_existing_namespace_is_kept<E>(name: Seq<char>, created: Result<(), E>)
    ensures
        namespace_checked::<E>(name, Ok(true)) == NamespaceView::<E>::Finished(Ok(name)),
        namespace_run(name, Ok(true), created) == NamespaceView::<E>::Finished(Ok(name)),
{
}

/// A namespace is asked for by its name, created just where the catalog lacks it, and handed out
/// where it is there. An error of the catalog is handed on.
pub proof fn law_namespace_goes_by_its_answers<E>(
    name: String,
    first: NamespaceStep<E>,
    check: CheckNamespace,
    exists: Result<bool, E>,
    checked: NamespaceStep<E>,
    create: CreateNamespace,
    made: Result<(), E>,
    created: NamespaceStep<E>,
)
    requires
        call_ensures(create_namespace::<E>, (name,), first),
        call_ensures(CheckNamespace::checked::<E>, (check, exists), checked),
        call_ensures(CreateNamespace::created::<E>, (create, made), created),
    ensures
        first matches NamespaceStep::Check(asked) && asked.ident.name@ == name@,
        exists matches Ok(true) ==> (checked matches NamespaceStep::Finished(Ok(ident))
            && ident.name@ == check.ident.name@),
        exists matches Ok(false) ==> (checked matches NamespaceStep::Create(lacking)
            && lacking.ident.name@ == check.ident.name@),
        exists matches Err(err) ==> checked == NamespaceStep::<E>::Finished(Err(err)),
        made is Ok ==> (created matches NamespaceStep::Finished(Ok(ident)) && ident.name@
            == create.ident.name@),
        made matches Err(err) ==> created == NamespaceStep::<E>::Finished(Err(err)),
{
    assert(first@ == NamespaceView::<E>::Check(name@));
}

/// A namespace is created without properties, and its text for a URL is its name.
pub proof fn law_namespace_is_its_name(
    name: String,
    ident: NamespaceIdent,
    text: String,
    create: &CreateNamespace,
    props: Props,
    key: Seq<char>,
)
    requires
        call_ensures(NamespaceIdent::new, (name,), ident),
        call_ensures(NamespaceIdent::to_url_string, (&ident,), text),
        call_ensures(CreateNamespace::props, (create,), props),
    ensures
        ident.name@ == name@,
        text@ == name@,
        !props@.contains_key(key),
{
}

} // verus!
