//! Types and calls that the library takes from std and tokio.
use vstd::prelude::*;
use crate::error::ContextError;

verus! {

/// `std::any::TypeId`, carried as an opaque value.
#[verifier::external_type_specification]
#[verifier::external_body]
pub struct ExTypeId(std::any::TypeId);

/// `std::time::Instant`, carried as an opaque value.
#[verifier::external_type_specification]
#[verifier::external_body]
pub struct ExInstant(std::time::Instant);

/// `tokio::sync::broadcast::Sender`, carried as an opaque value.
#[verifier::external_type_specification]
#[verifier::external_body]
#[verifier::reject_recursive_types(T)]
pub struct ExSender<T>(tokio::sync::broadcast::Sender<T>);

/// `tokio::sync::RwLock`, carried as an opaque value.
#[verifier::external_type_specification]
#[verifier::external_body]
#[verifier::reject_recursive_types(T)]
pub struct ExRwLock<T: ?Sized>(tokio::sync::RwLock<T>);

/// `TypeId`'s `==` (`PartialEq::eq`). Claimed: it returns `true` exactly when
/// the two identifiers are the same value, that is, stand for the same type.
#[verifier::external_body]
pub(crate) fn same_type(a: &std::any::TypeId, b: &std::any::TypeId) -> (r: bool)
    ensures
        r == (*a == *b),
{
    *a == *b
}

/// `tokio::sync::broadcast::channel`, keeping the sending half; it panics on a
/// capacity of 0 or above `usize::MAX / 2`, which `requires` leaves out.
/// Nothing is claimed of the sender.
#[verifier::external_body]
pub(crate) fn signal_sender(capacity: usize) -> tokio::sync::broadcast::Sender<()>
    requires
        0 < capacity <= usize::MAX / 2,
{
    let (tx, _) = tokio::sync::broadcast::channel(capacity);
    tx
}

/// `tokio::sync::RwLock::new`. Nothing is claimed of the lock: what it holds
/// changes under other tasks, so no clause speaks of its contents. The library
/// makes only empty error cells (`requires`): a context is made not done, and
/// an error enters its cell only by the decision of `settle`.
#[verifier::external_body]
pub(crate) fn error_lock(initial: Option<ContextError>) -> tokio::sync::RwLock<Option<ContextError>>
    requires
        initial is None,
{
    tokio::sync::RwLock::new(initial)
}

/// `Instant::now`: the current time, which nothing here can predict.
#[verifier::external_body]
pub(crate) fn instant_now() -> std::time::Instant {
    std::time::Instant::now()
}

/// What `Instant::checked_add` returns for an instant and a duration: the
/// instant `by` after `at`, or `None` where that cannot be represented.
pub uninterp spec fn instant_plus(at: std::time::Instant, by: std::time::Duration) -> Option<std::time::Instant>;

/// `Instant::checked_add`. Claimed: its result depends on its two arguments
/// alone, and is named `instant_plus`; nothing is said of which instant that
/// is, `Instant` being opaque here.
#[verifier::external_body]
pub(crate) fn instant_checked_add(at: std::time::Instant, by: std::time::Duration) -> (r: Option<std::time::Instant>)
    ensures
        r == instant_plus(at, by),
{
    at.checked_add(by)
}

} // verus!
