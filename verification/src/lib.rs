//! Go-style context propagation: a tree of contexts that carries values,
//! deadlines and a cancellation state down to the work that runs under it.
use vstd::prelude::*;
use std::any::TypeId;
use std::sync::Arc;
use std::time::{Duration, Instant};

pub mod error;
pub mod runtime;
pub mod key;
pub mod signal;
pub mod context;

pub use context::{readable_types, CancelFn, ContextImpl, Entry};
pub use error::ContextError;
pub use key::TypedKey;
pub use signal::{first_error, settle, DoneReason};


verus! {

/// The context type used throughout the crate; `P` is the type in which values are stored.
pub type Context<P> = Arc<ContextImpl<P>>;

/// A new empty context: no parent, no value, no deadline.
pub fn background<P>() -> (r: Context<P>)
    ensures
        r.parent_spec() is None,
        r.value_spec() is None,
        r.deadline_spec() is None,
{
    ContextImpl::background()
}

/// A child of `parent` that can be canceled, and the handle that cancels it.
/// The child keeps the deadline of `parent`.
pub fn with_cancel<P>(parent: &Context<P>) -> (r: (Context<P>, CancelFn<P>))
    ensures
        r.0.parent_spec() == Some(*parent),
        r.0.value_spec() is None,
        r.0.deadline_spec() == parent.deadline_spec(),
        r.1.context_spec() == r.0,
{
    ContextImpl::with_cancel(parent)
}

/// A child of `parent` whose deadline is `deadline`, and the handle that cancels it.
pub fn with_deadline<P>(parent: &Context<P>, deadline: Instant) -> (r: (Context<P>, CancelFn<P>))
    ensures
        r.0.parent_spec() == Some(*parent),
        r.0.value_spec() is None,
        r.0.deadline_spec() == Some(deadline),
        r.1.context_spec() == r.0,
{
    ContextImpl::with_deadline(parent, deadline)
}

/// A child of `parent` whose deadline is `timeout` from now, and the handle
/// that cancels it; `None` where that instant cannot be represented.
pub fn with_timeout<P>(parent: &Context<P>, timeout: Duration) -> (r: Option<(Context<P>, CancelFn<P>)>)
    ensures
        r matches Some(pair) ==> {
            &&& pair.0.parent_spec() == Some(*parent)
            &&& pair.0.value_spec() is None
            &&& pair.0.deadline_spec() is Some
            &&& pair.1.context_spec() == pair.0
        },
        exists|now: Instant|
            {
                &&& (r is None <==> #[trigger] crate::runtime::instant_plus(now, timeout) is None)
                &&& (r matches Some(pair) ==> pair.0.deadline_spec() == crate::runtime::instant_plus(now, timeout))
            },
{
    ContextImpl::with_timeout(parent, timeout)
}

/// A child of `parent` that holds `value` under `key`; `value_type` identifies
/// the type of the value. The child keeps the deadline of `parent`.
pub fn with_value<P>(parent: &Context<P>, key: TypedKey, value_type: TypeId, value: P) -> (r: Context<P>)
    ensures
        r.parent_spec() == Some(*parent),
        r.value_spec() == Some(Entry { key, value_type, value }),
        r.deadline_spec() == parent.deadline_spec(),
{
    ContextImpl::with_value(parent, key, value_type, value)
}

} // verus!
