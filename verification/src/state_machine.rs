//! The lifecycle of a subscription: which status may follow which.
use crate::types::{Error, SubscriptionStatus};
use vstd::prelude::*;

verus! {

/// A change of status that the lifecycle knows.
pub open spec fn moves(from: SubscriptionStatus, to: SubscriptionStatus) -> bool {
    match from {
        SubscriptionStatus::Active => to is Paused || to is Cancelled || to is InsufficientBalance
            || to is GracePeriod,
        SubscriptionStatus::Paused => to is Active || to is Cancelled,
        SubscriptionStatus::Cancelled => false,
        SubscriptionStatus::InsufficientBalance => to is Active || to is Cancelled,
        SubscriptionStatus::GracePeriod => to is Active || to is InsufficientBalance
            || to is Cancelled,
    }
}

/// A status may stay, or move as the lifecycle knows.
pub open spec fn transition_allowed(from: SubscriptionStatus, to: SubscriptionStatus) -> bool {
    from == to || moves(from, to)
}

/// Whether a subscription may go from one status to another.
pub fn can_transition(from: &SubscriptionStatus, to: &SubscriptionStatus) -> (allowed: bool)
    ensures
        allowed == transition_allowed(*from, *to),
{
    if *from == *to {
        return true;
    }
    match *from {
        SubscriptionStatus::Active => match *to {
            SubscriptionStatus::Active => false,
            _ => true,
        },
        SubscriptionStatus::Paused => match *to {
            SubscriptionStatus::Active | SubscriptionStatus::Cancelled => true,
            _ => false,
        },
        SubscriptionStatus::Cancelled => false,
        SubscriptionStatus::InsufficientBalance => match *to {
            SubscriptionStatus::Active | SubscriptionStatus::Cancelled => true,
            _ => false,
        },
        SubscriptionStatus::GracePeriod => match *to {
            SubscriptionStatus::Active
            | SubscriptionStatus::InsufficientBalance
            | SubscriptionStatus::Cancelled => true,
            _ => false,
        },
    }
}

/// Refuses a change of status that the lifecycle does not allow.
pub fn validate_status_transition(
    from: &SubscriptionStatus,
    to: &SubscriptionStatus,
) -> (checked: Result<(), Error>)
    ensures
        checked == if transition_allowed(*from, *to) {
            Ok::<(), Error>(())
        } else {
            Err(Error::InvalidStatusTransition)
        },
{
    if can_transition(from, to) {
        Ok(())
    } else {
        Err(Error::InvalidStatusTransition)
    }
}

/// The statuses to which a subscription may move, each once.
pub fn get_allowed_transitions(from: &SubscriptionStatus) -> (targets: Vec<SubscriptionStatus>)
    ensures
        forall|to: SubscriptionStatus| targets@.contains(to) <==> moves(*from, to),
        targets@.no_duplicates(),
{
    let targets: Vec<SubscriptionStatus> = match *from {
        SubscriptionStatus::Active => vec![
            SubscriptionStatus::Paused,
            SubscriptionStatus::Cancelled,
            SubscriptionStatus::InsufficientBalance,
            SubscriptionStatus::GracePeriod,
        ],
        SubscriptionStatus::Paused => vec![
            SubscriptionStatus::Active,
            SubscriptionStatus::Cancelled,
        ],
        SubscriptionStatus::Cancelled => Vec::new(),
        SubscriptionStatus::InsufficientBalance => vec![
            SubscriptionStatus::Active,
            SubscriptionStatus::Cancelled,
        ],
        SubscriptionStatus::GracePeriod => vec![
            SubscriptionStatus::Active,
            SubscriptionStatus::InsufficientBalance,
            SubscriptionStatus::Cancelled,
        ],
    };
    assert forall|to: SubscriptionStatus| targets@.contains(to) <==> moves(*from, to) by {
        if moves(*from, to) {
            assert(targets@[0] == to || targets@[1] == to || targets@[2] == to || targets@[3]
                == to);
        }
    }
    targets
}

/// Cancellation is final: no status but `Cancelled` may follow it.
pub proof fn cancelled_is_terminal(to: SubscriptionStatus)
    ensures
        transition_allowed(SubscriptionStatus::Cancelled, to) <==> to is Cancelled,
{
}

/// Every status may be cancelled.
pub proof fn cancellation_is_always_open(from: SubscriptionStatus)
    ensures
        transition_allowed(from, SubscriptionStatus::Cancelled),
{
}

} // verus!
