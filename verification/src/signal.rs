//! How a context becomes done: the decision taken when a cancel is requested or
//! a deadline passes, and the error that a context reports given the recorded
//! errors of itself and its ancestors.
use vstd::prelude::*;
use crate::error::ContextError;

verus! {

/// What happened to a context.
#[derive(Debug, Clone, Copy, PartialEq, Eq, Structural)]
pub enum DoneReason {
    /// Its cancel function was called.
    CancelRequested,
    /// Its deadline has passed.
    DeadlineReached,
}

/// The error that a reason leads to.
pub open spec fn error_for(reason: DoneReason) -> ContextError {
    match reason {
        DoneReason::CancelRequested => ContextError::Canceled,
        DoneReason::DeadlineReached => ContextError::DeadlineExceeded,
    }
}

/// The error of a context after `reason` happens to it, given the error it
/// reported before: the first error stays.
pub open spec fn next_error(observed: Option<ContextError>, reason: DoneReason) -> Option<ContextError> {
    match observed {
        Some(e) => Some(e),
        None => Some(error_for(reason)),
    }
}

/// The error that a context reports, given the recorded errors along its
/// lineage (itself first, then its parent, and so on to the root): the first
/// one recorded, nearest first.
pub open spec fn first_error_spec(lineage: Seq<Option<ContextError>>) -> Option<ContextError>
    decreases lineage.len(),
{
    if lineage.len() == 0 {
        None
    } else if lineage[0] is Some {
        lineage[0]
    } else {
        first_error_spec(lineage.drop_first())
    }
}

/// The decision taken when `reason` happens to a context that reports
/// `observed`: the error to record for it, and whether waiters are to be woken.
/// A context that is done already stays as it is and wakes nobody; any other
/// records the error of `reason` and wakes its waiters.
pub fn settle(observed: Option<ContextError>, reason: DoneReason) -> (r: (Option<ContextError>, bool))
    ensures
        r.0 == next_error(observed, reason),
        r.1 == (observed is None),
{
    match observed {
        Some(e) => (Some(e), false),
        None => match reason {
            DoneReason::CancelRequested => (Some(ContextError::Canceled), true),
            DoneReason::DeadlineReached => (Some(ContextError::DeadlineExceeded), true),
        },
    }
}

proof fn lemma_first_error_skip(lineage: Seq<Option<ContextError>>, i: int)
    requires
        0 <= i < lineage.len(),
        lineage[i] is None,
    ensures
        first_error_spec(lineage.skip(i)) == first_error_spec(lineage.skip(i + 1)),
{
    assert(lineage.skip(i).drop_first() =~= lineage.skip(i + 1));
}

/// The error that a context reports, given the errors recorded along its
/// lineage, itself first: the nearest one recorded, or `None`.
pub fn first_error(lineage: &Vec<Option<ContextError>>) -> (r: Option<ContextError>)
    ensures
        r == first_error_spec(lineage@),
{
    let mut i: usize = 0;
    assert(lineage@.skip(0) =~= lineage@);
    while i < lineage.len()
        invariant
            0 <= i <= lineage@.len(),
            first_error_spec(lineage@.skip(i as int)) == first_error_spec(lineage@),
        decreases lineage@.len() - i,
    {
        match lineage[i] {
            Some(e) => {
                return Some(e);
            },
            None => {
                proof {
                    lemma_first_error_skip(lineage@, i as int);
                }
            },
        }
        i = i + 1;
    }
    assert(lineage@.skip(i as int) =~= Seq::<Option<ContextError>>::empty());
    None
}

/// The errors recorded along a lineage after `reason` happens to the context
/// at position `k` of it, when that context follows `settle`: it records an
/// error only where it reported none.
pub open spec fn after_signal(lineage: Seq<Option<ContextError>>, k: int, reason: DoneReason) -> Seq<
    Option<ContextError>,
> {
    let observed = first_error_spec(lineage.skip(k));
    if observed is None {
        lineage.update(k, next_error(observed, reason))
    } else {
        lineage
    }
}

/// The error of a lineage is the one of its first `k` members where one of them
/// has recorded one, and otherwise the one of the rest.
proof fn lemma_first_error_split(lineage: Seq<Option<ContextError>>, k: int)
    requires
        0 <= k <= lineage.len(),
    ensures
        first_error_spec(lineage) == (if first_error_spec(lineage.take(k)) is Some {
            first_error_spec(lineage.take(k))
        } else {
            first_error_spec(lineage.skip(k))
        }),
    decreases k,
{
    if k == 0 {
        assert(lineage.take(0) =~= Seq::<Option<ContextError>>::empty());
        assert(lineage.skip(0) =~= lineage);
    } else if lineage[0] is Some {
        assert(lineage.take(k)[0] == lineage[0]);
    } else {
        let rest = lineage.drop_first();
        lemma_first_error_split(rest, k - 1);
        assert(lineage.take(k).drop_first() =~= rest.take(k - 1));
        assert(lineage.skip(k) =~= rest.skip(k - 1));
        assert(lineage.take(k)[0] == lineage[0]);
    }
}

/// Once a context reports an error, it keeps it: no later cancel or deadline
/// changes it. The first reason that happens to a context decides its error,
/// and a second one (a repeated cancel, say) changes nothing.
pub proof fn lemma_first_reason_wins(observed: Option<ContextError>, first: DoneReason, second: DoneReason)
    ensures
        next_error(observed, first) is Some,
        observed matches Some(e) ==> next_error(observed, first) == Some(e),
        observed is None ==> next_error(observed, first) == Some(error_for(first)),
        next_error(next_error(observed, first), second) == next_error(observed, first),
{
}

/// A context with no error recorded for itself reports the error of its parent.
pub proof fn lemma_error_inherited(own: Option<ContextError>, parent_lineage: Seq<Option<ContextError>>)
    requires
        own is None,
    ensures
        first_error_spec(seq![own] + parent_lineage) == first_error_spec(parent_lineage),
{
    assert((seq![own] + parent_lineage).drop_first() =~= parent_lineage);
}

/// What a cancel or a deadline does, seen from any context whose lineage holds
/// the context it happens to (at position `k`): afterwards that context is
/// done, reporting what `settle` decided; every context under it is done too;
/// and a context that reported an error before still reports the same one.
pub proof fn lemma_signal_seen_below(lineage: Seq<Option<ContextError>>, k: int, reason: DoneReason)
    requires
        0 <= k < lineage.len(),
    ensures
        first_error_spec(after_signal(lineage, k, reason).skip(k)) == next_error(
            first_error_spec(lineage.skip(k)),
            reason,
        ),
        first_error_spec(after_signal(lineage, k, reason)) is Some,
        first_error_spec(lineage) is Some ==> first_error_spec(after_signal(lineage, k, reason))
            == first_error_spec(lineage),
{
    let after = after_signal(lineage, k, reason);
    let observed = first_error_spec(lineage.skip(k));
    lemma_first_error_split(lineage, k);
    lemma_first_error_split(after, k);
    assert(after.take(k) =~= lineage.take(k));
    if observed is None {
        assert(after.skip(k)[0] == next_error(observed, reason));
    }
}

/// A cancel or a deadline never travels up: the errors recorded for the
/// ancestors of the context it happens to (positions after `k` in a lineage)
/// stay as they were, and so does what each of those ancestors reports.
pub proof fn lemma_signal_not_seen_above(lineage: Seq<Option<ContextError>>, k: int, reason: DoneReason)
    requires
        0 <= k < lineage.len(),
    ensures
        after_signal(lineage, k, reason).skip(k + 1) == lineage.skip(k + 1),
        forall|j: int|
            k < j <= lineage.len() ==> first_error_spec(#[trigger] after_signal(lineage, k, reason).skip(j))
                == first_error_spec(lineage.skip(j)),
{
    let after = after_signal(lineage, k, reason);
    assert(after.skip(k + 1) =~= lineage.skip(k + 1));
    assert forall|j: int| k < j <= lineage.len() implies first_error_spec(
        #[trigger] after_signal(lineage, k, reason).skip(j),
    ) == first_error_spec(lineage.skip(j)) by {
        assert(after.skip(j) =~= lineage.skip(j));
    }
}

} // verus!
