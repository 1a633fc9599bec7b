//! What can go wrong.

use crate::locator::{Url, UrlView};
use vstd::prelude::*;
use vstd::string::*;

verus! {

/// An error of the iceberg crate.
#[verifier::external_type_specification]
#[verifier::external_body]
pub struct ExIcebergError(iceberg::Error);

/// Why a request on the lake failed. `E` is what the schema registry reports.
#[derive(Debug)]
pub enum LakeError<E> {
    /// There is no kind of catalog for the scheme of this URL.
    UnsupportedIcebergCatalogUrl(Url),
    /// A failure in words.
    Message(String),
    /// A failure of the catalog, of a file writer or of a schema.
    Iceberg(iceberg::Error),
    /// A failure of the schema registry.
    Registry(E),
}

/// The mathematical value of a [`LakeError`].
pub enum LakeErrorView<E> {
    UnsupportedIcebergCatalogUrl(UrlView),
    Message(Seq<char>),
    Iceberg(iceberg::Error),
    Registry(E),
}

impl<E> View for LakeError<E> {
    type V = LakeErrorView<E>;

    open spec fn view(&self) -> LakeErrorView<E> {
        match *self {
            LakeError::UnsupportedIcebergCatalogUrl(url) => {
                LakeErrorView::UnsupportedIcebergCatalogUrl(url@)
            },
            LakeError::Message(message) => LakeErrorView::Message(message@),
            LakeError::Iceberg(err) => LakeErrorView::Iceberg(err),
            LakeError::Registry(err) => LakeErrorView::Registry(err),
        }
    }
}

/// The value of a result that may be a [`LakeError`].
pub open spec fn outcome<T, E>(result: Result<T, LakeError<E>>) -> Result<T, LakeErrorView<E>> {
    match result {
        Ok(value) => Ok(value),
        Err(err) => Err(err@),
    }
}

/// The error for staged writes that cannot be locked, for the reason `reason`.
pub fn staged_writes_locked<E>(reason: &str) -> (err: LakeError<E>)
    ensures
        err@ == LakeErrorView::<E>::Message("unable to lock iceberg staged writes: "@ + reason@),
{
    let mut message: String = "unable to lock iceberg staged writes: ".to_owned();
    message.append(reason);
    LakeError::Message(message)
}

/// An error is kept as it is: its kind and what it holds are seen, and a result hands it on unchanged.
pub proof fn law_error_is_handed_on<T, E>(err: LakeError<E>, value: T)
    ensures
        match err {
            LakeError::UnsupportedIcebergCatalogUrl(url) => err@
                == LakeErrorView::<E>::UnsupportedIcebergCatalogUrl(url@),
            LakeError::Message(message) => err@ == LakeErrorView::<E>::Message(message@),
            LakeError::Iceberg(cause) => err@ == LakeErrorView::<E>::Iceberg(cause),
            LakeError::Registry(cause) => err@ == LakeErrorView::<E>::Registry(cause),
        },
        outcome(Err::<T, LakeError<E>>(err)) == Err::<T, LakeErrorView<E>>(err@),
        outcome(Ok::<T, LakeError<E>>(value)) == Ok::<T, LakeErrorView<E>>(value),
{
}

/// The error for staged writes that cannot be locked is a message that ends in the reason.
pub proof fn law_lock_error_gives_the_reason<E>(reason: &str, err: LakeError<E>)
    requires
        call_ensures(staged_writes_locked::<E>, (reason,), err),
    ensures
        err matches LakeError::Message(message) && message@
            == "unable to lock iceberg staged writes: "@ + reason@,
{
}

} // verus!
