//! Read-only entrypoints and helpers: get_subscription, estimate_topup,
//! list_subscriptions_by_subscriber.
//!
//! ## Pagination
//!
//! - **`list_subscriptions_by_subscriber`**: Results are ordered by subscription id
//!   ascending. `start_from_id` is inclusive. Continue with `next_start_id` when present.
//! - **`get_subscriptions_by_merchant`** / **`get_subscriptions_by_token`**: Results follow
//!   the order in which subscriptions were created. `start` is a 0-based offset into the
//!   list of ids. Ids without a subscription are skipped; callers should use
//!   `get_merchant_subscription_count` or `get_token_subscription_count` for the length of
//!   the list when paginating.
use crate::safe_math::{amount_of, safe_mul, safe_sub};
use crate::tables::{listed, window};
use crate::types::{
    Address, CapInfo, Error, NextChargeInfo, Subscription, SubscriptionStatus,
};
use crate::vault::{SubscriptionVault, VaultState};
use vstd::prelude::*;

verus! {

/// Maximum `limit` of the paginated lists of subscriptions.
pub const MAX_SUBSCRIPTION_LIST_PAGE: u32 = 100;

/// A subscription by its id.
pub open spec fn found(s: VaultState, subscription_id: u32) -> Result<Subscription, Error> {
    match s.subscriptions.get(subscription_id) {
        Some(sub) => Ok(sub),
        None => Err(Error::NotFound),
    }
}

/// Read subscription by id.
pub fn get_subscription(
    vault: &SubscriptionVault,
    subscription_id: u32,
) -> (result: Result<Subscription, Error>)
    ensures
        result == found(vault@, subscription_id),
{
    match vault.subscriptions.get(subscription_id) {
        Some(sub) => Ok(sub),
        None => Err(Error::NotFound),
    }
}

/// What is missing from a prepaid balance to cover `num_intervals` intervals.
pub open spec fn topup_for(sub: Subscription, num_intervals: u32) -> Result<i128, Error> {
    if num_intervals == 0 {
        Ok(0)
    } else {
        match amount_of(sub.amount * num_intervals) {
            Err(e) => Err(e),
            Ok(required) => {
                let missing = required - sub.prepaid_balance;
                if 0 <= missing <= i128::MAX {
                    Ok(missing as i128)
                } else {
                    Ok(0)
                }
            },
        }
    }
}

/// Estimate how much a subscriber needs to deposit to cover N future intervals.
pub fn estimate_topup_for_intervals(
    vault: &SubscriptionVault,
    subscription_id: u32,
    num_intervals: u32,
) -> (result: Result<i128, Error>)
    ensures
        result == match found(vault@, subscription_id) {
            Ok(sub) => topup_for(sub, num_intervals),
            Err(e) => Err(e),
        },
{
    let sub = match get_subscription(vault, subscription_id) {
        Ok(sub) => sub,
        Err(e) => return Err(e),
    };
    if num_intervals == 0 {
        return Ok(0);
    }
    let required: i128 = match safe_mul(sub.amount, num_intervals as i128) {
        Ok(required) => required,
        Err(e) => return Err(e),
    };
    match safe_sub(required, sub.prepaid_balance) {
        Ok(missing) => if missing > 0 {
            Ok(missing)
        } else {
            Ok(0)
        },
        Err(_) => Ok(0),
    }
}

/// A deposit of the estimate makes the prepaid balance cover the intervals, and no smaller
/// deposit does.
pub proof fn estimated_topup_suffices(sub: Subscription, num_intervals: u32)
    requires
        sub.amount >= 0,
        sub.prepaid_balance >= 0,
        topup_for(sub, num_intervals) is Ok,
    ensures
        ({
            let topup = topup_for(sub, num_intervals)->Ok_0;
            &&& topup >= 0
            &&& sub.prepaid_balance + topup >= sub.amount * num_intervals
            &&& topup > 0 ==> sub.prepaid_balance + topup == sub.amount * num_intervals
        }),
{
    assert(sub.amount * num_intervals >= 0) by (nonlinear_arith)
        requires
            sub.amount >= 0,
    ;
    if num_intervals == 0 {
        assert(sub.amount * num_intervals == 0) by (nonlinear_arith)
            requires
                num_intervals == 0,
        ;
    }
}

/// The subscriptions with the given ids, where there are any.
pub open spec fn existing(s: VaultState, ids: Seq<u32>) -> Seq<Subscription>
    decreases ids.len(),
{
    if ids.len() == 0 {
        Seq::empty()
    } else {
        let front = existing(s, ids.drop_last());
        match s.subscriptions.get(ids.last()) {
            Some(sub) => front.push(sub),
            None => front,
        }
    }
}

/// Whether a page may have `limit` entries.
pub open spec fn is_valid_page(limit: u32) -> bool {
    1 <= limit <= MAX_SUBSCRIPTION_LIST_PAGE
}

/// The subscriptions at `limit` positions of a list of ids, from `start` on.
pub(crate) fn read_page(
    vault: &SubscriptionVault,
    ids: &Vec<u32>,
    start: u32,
    limit: u32,
) -> (subscriptions: Vec<Subscription>)
    ensures
        subscriptions@ == existing(vault@, window(ids@, start as int, limit as int)),
{
    let mut subscriptions: Vec<Subscription> = Vec::new();
    let len: usize = ids.len();
    let first: usize = start as usize;
    if first >= len {
        return subscriptions;
    }
    let end: usize = if len - first > limit as usize {
        first + limit as usize
    } else {
        len
    };
    let ghost page = window(ids@, start as int, limit as int);
    let mut i: usize = first;
    assert(page.take(0) =~= Seq::<u32>::empty());
    while i < end
        invariant
            first <= i <= end <= ids@.len(),
            page.len() == end - first,
            forall|n: int| 0 <= n < page.len() ==> page[n] == ids@[first + n],
            subscriptions@ == existing(vault@, page.take(i - first)),
        decreases end - i,
    {
        assert(page.take(i + 1 - first).drop_last() =~= page.take(i - first));
        if let Some(sub) = vault.subscriptions.get(ids[i]) {
            subscriptions.push(sub);
        }
        i = i + 1;
    }
    assert(page.take(i - first) =~= page);
    subscriptions
}

/// Returns subscriptions for a merchant, paginated by offset into the merchant's list of
/// ids.
///
/// `limit` must be in `1..=MAX_SUBSCRIPTION_LIST_PAGE`.
pub fn get_subscriptions_by_merchant(
    vault: &SubscriptionVault,
    merchant: Address,
    start: u32,
    limit: u32,
) -> (result: Result<Vec<Subscription>, Error>)
    ensures
        match result {
            Err(e) => !is_valid_page(limit) && e == Error::InvalidInput,
            Ok(subscriptions) => is_valid_page(limit) && subscriptions@ == existing(
                vault@,
                window(listed(vault@.by_merchant, merchant), start as int, limit as int),
            ),
        },
{
    if limit == 0 || limit > MAX_SUBSCRIPTION_LIST_PAGE {
        return Err(Error::InvalidInput);
    }
    let ids = vault.by_merchant.ids_of(merchant);
    Ok(read_page(vault, &ids, start, limit))
}

/// Returns the number of subscriptions for a given merchant.
pub fn get_merchant_subscription_count(
    vault: &SubscriptionVault,
    merchant: Address,
) -> (count: u32)
    requires
        listed(vault@.by_merchant, merchant).len() <= u32::MAX,
    ensures
        count == listed(vault@.by_merchant, merchant).len(),
{
    vault.by_merchant.ids_of(merchant).len() as u32
}

/// Number of subscription ids listed for this token.
pub fn get_token_subscription_count(vault: &SubscriptionVault, token: Address) -> (count: u32)
    requires
        listed(vault@.by_token, token).len() <= u32::MAX,
    ensures
        count == listed(vault@.by_token, token).len(),
{
    vault.by_token.ids_of(token).len() as u32
}

/// Returns subscriptions for a settlement token, paginated by offset into the token's list
/// of ids.
///
/// `limit` must be in `1..=MAX_SUBSCRIPTION_LIST_PAGE`.
pub fn get_subscriptions_by_token(
    vault: &SubscriptionVault,
    token: Address,
    start: u32,
    limit: u32,
) -> (result: Result<Vec<Subscription>, Error>)
    ensures
        match result {
            Err(e) => !is_valid_page(limit) && e == Error::InvalidInput,
            Ok(subscriptions) => is_valid_page(limit) && subscriptions@ == existing(
                vault@,
                window(listed(vault@.by_token, token), start as int, limit as int),
            ),
        },
{
    if limit == 0 || limit > MAX_SUBSCRIPTION_LIST_PAGE {
        return Err(Error::InvalidInput);
    }
    let ids = vault.by_token.ids_of(token);
    Ok(read_page(vault, &ids, start, limit))
}

/// When the next charge is due, and whether one is expected at all. The time stops at the
/// end of the clock.
pub open spec fn next_charge(sub: Subscription) -> NextChargeInfo {
    let due = sub.last_payment_timestamp + sub.interval_seconds;
    NextChargeInfo {
        next_charge_timestamp: if due > u64::MAX {
            u64::MAX
        } else {
            due as u64
        },
        is_charge_expected: !(sub.status is Paused || sub.status is Cancelled),
    }
}

/// Computes the estimated next charge timestamp for a subscription.
pub fn compute_next_charge_info(subscription: &Subscription) -> (info: NextChargeInfo)
    ensures
        info == next_charge(*subscription),
{
    let next_charge_timestamp: u64 = subscription.last_payment_timestamp.saturating_add(
        subscription.interval_seconds,
    );
    let is_charge_expected = match subscription.status {
        SubscriptionStatus::Active => true,
        SubscriptionStatus::InsufficientBalance => true,
        SubscriptionStatus::GracePeriod => true,
        SubscriptionStatus::Paused => false,
        SubscriptionStatus::Cancelled => false,
    };
    NextChargeInfo { next_charge_timestamp, is_charge_expected }
}

/// How far a subscription's lifetime cap is used up.
pub open spec fn cap_info(sub: Subscription) -> CapInfo {
    CapInfo {
        lifetime_cap: sub.lifetime_cap,
        lifetime_charged: sub.lifetime_charged,
        remaining_cap: match sub.lifetime_cap {
            Some(cap) => {
                let room = cap - sub.lifetime_charged;
                Some(
                    if room < 0 {
                        0
                    } else if room > i128::MAX {
                        i128::MAX
                    } else {
                        room as i128
                    },
                )
            },
            None => None,
        },
        cap_reached: sub.lifetime_cap matches Some(cap) && sub.lifetime_charged >= cap,
    }
}

/// Returns lifetime cap information for a subscription.
pub fn get_cap_info(vault: &SubscriptionVault, subscription_id: u32) -> (result: Result<
    CapInfo,
    Error,
>)
    ensures
        result == match found(vault@, subscription_id) {
            Ok(sub) => Ok(cap_info(sub)),
            Err(e) => Err(e),
        },
{
    let sub = match get_subscription(vault, subscription_id) {
        Ok(sub) => sub,
        Err(e) => return Err(e),
    };
    let (remaining_cap, cap_reached) = match sub.lifetime_cap {
        Some(cap) => {
            let room: i128 = match safe_sub(cap, sub.lifetime_charged) {
                Ok(room) => if room > 0 {
                    room
                } else {
                    0
                },
                Err(Error::Overflow) => i128::MAX,
                Err(_) => 0,
            };
            (Some(room), sub.lifetime_charged >= cap)
        },
        None => (None, false),
    };
    Ok(
        CapInfo {
            lifetime_cap: sub.lifetime_cap,
            lifetime_charged: sub.lifetime_charged,
            remaining_cap,
            cap_reached,
        },
    )
}

/// Result of a paginated query for subscriptions by subscriber.
#[derive(Debug, PartialEq, Eq)]
pub struct SubscriptionsPage {
    pub subscription_ids: Vec<u32>,
    /// Where to continue, if there is more.
    pub next_start_id: Option<u32>,
    pub has_next: bool,
}

/// Ids in `from..to` of the subscriptions that belong to a subscriber, ascending.
pub open spec fn owned(s: VaultState, subscriber: Address, from: int, to: int) -> Seq<u32>
    decreases to - from,
{
    if from >= to {
        Seq::empty()
    } else {
        let rest = owned(s, subscriber, from + 1, to);
        if s.subscriptions.get(from as u32) matches Some(sub) && sub.subscriber == subscriber {
            seq![from as u32] + rest
        } else {
            rest
        }
    }
}

/// The page of a list of ids that starts at its beginning.
pub open spec fn lists(page: SubscriptionsPage, all: Seq<u32>, limit: u32) -> bool {
    &&& page.subscription_ids@ == window(all, 0, limit as int)
    &&& page.has_next == (all.len() > limit)
    &&& page.next_start_id == if all.len() > limit {
        Some(all[limit as int])
    } else {
        None
    }
}

/// Get all subscription IDs for a given subscriber with pagination support.
pub fn list_subscriptions_by_subscriber(
    vault: &SubscriptionVault,
    subscriber: Address,
    start_from_id: u32,
    limit: u32,
) -> (result: Result<SubscriptionsPage, Error>)
    ensures
        match result {
            Err(e) => !is_valid_page(limit) && e == Error::InvalidInput,
            Ok(page) => is_valid_page(limit) && lists(
                page,
                owned(vault@, subscriber, start_from_id as int, vault@.next_id as int),
                limit,
            ),
        },
{
    if limit == 0 || limit > MAX_SUBSCRIPTION_LIST_PAGE {
        return Err(Error::InvalidInput);
    }
    let ghost all = owned(vault@, subscriber, start_from_id as int, vault@.next_id as int);
    let mut subscription_ids: Vec<u32> = Vec::new();
    let mut id: u32 = start_from_id;
    assert(all =~= subscription_ids@ + all);
    while id < vault.next_id
        invariant
            is_valid_page(limit),
            subscription_ids@.len() <= limit,
            all == owned(vault@, subscriber, start_from_id as int, vault@.next_id as int),
            all == subscription_ids@ + owned(
                vault@,
                subscriber,
                id as int,
                vault@.next_id as int,
            ),
        ensures
            subscription_ids@.len() <= limit,
            all == subscription_ids@,
        decreases vault.next_id - id,
    {
        if let Some(sub) = vault.subscriptions.get(id) {
            if sub.subscriber == subscriber {
                let ghost rest = owned(vault@, subscriber, id + 1, vault@.next_id as int);
                assert(subscription_ids@ + (seq![id] + rest) =~= subscription_ids@.push(id)
                    + rest);
                if subscription_ids.len() < limit as usize {
                    subscription_ids.push(id);
                } else {
                    assert(all[limit as int] == id);
                    assert(window(all, 0, limit as int) =~= subscription_ids@);
                    return Ok(
                        SubscriptionsPage {
                            subscription_ids,
                            next_start_id: Some(id),
                            has_next: true,
                        },
                    );
                }
            }
        }
        id = id + 1;
    }
    assert(window(all, 0, limit as int) =~= subscription_ids@);
    Ok(SubscriptionsPage { subscription_ids, next_start_id: None, has_next: false })
}

/// Ids come in ascending order, what follows an id are the ids above it, and all of them
/// belong to the subscriber.
proof fn lemma_owned_suffix(s: VaultState, subscriber: Address, from: int, to: int, i: int)
    requires
        0 <= from,
        to <= 0x1_0000_0000,
        0 <= i < owned(s, subscriber, from, to).len(),
    ensures
        from <= owned(s, subscriber, from, to)[i] < to,
        owned(s, subscriber, from, to).skip(i) == owned(
            s,
            subscriber,
            owned(s, subscriber, from, to)[i] as int,
            to,
        ),
    decreases to - from,
{
    let whole = owned(s, subscriber, from, to);
    let rest = owned(s, subscriber, from + 1, to);
    if s.subscriptions.get(from as u32) matches Some(sub) && sub.subscriber == subscriber {
        assert(whole == seq![from as u32] + rest);
        if i == 0 {
            assert(whole.skip(0) =~= whole);
        } else {
            lemma_owned_suffix(s, subscriber, from + 1, to, i - 1);
            assert(whole.skip(i) =~= rest.skip(i - 1));
            assert(whole[i] == rest[i - 1]);
        }
    } else {
        lemma_owned_suffix(s, subscriber, from + 1, to, i);
    }
}

/// Following `next_start_id` goes on exactly where a page ended: the page and what is
/// listed from there on are together everything from the page's start on.
pub proof fn listing_continues(
    s: VaultState,
    subscriber: Address,
    start_from_id: u32,
    page: SubscriptionsPage,
    limit: u32,
)
    requires
        is_valid_page(limit),
        lists(page, owned(s, subscriber, start_from_id as int, s.next_id as int), limit),
    ensures
        owned(s, subscriber, start_from_id as int, s.next_id as int)
            == page.subscription_ids@ + match page.next_start_id {
            Some(next) => owned(s, subscriber, next as int, s.next_id as int),
            None => Seq::empty(),
        },
{
    let all = owned(s, subscriber, start_from_id as int, s.next_id as int);
    if all.len() > limit {
        lemma_owned_suffix(
            s,
            subscriber,
            start_from_id as int,
            s.next_id as int,
            limit as int,
        );
        assert(all =~= page.subscription_ids@ + all.skip(limit as int));
    } else {
        assert(all =~= page.subscription_ids@ + Seq::<u32>::empty());
    }
}

} // verus!
