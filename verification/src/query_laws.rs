//! What queries, listings, exports and pages show, item by item.
use crate::charge_laws::number;
use crate::contract::with_compaction;
use crate::events::{BillingCompactedEvent, Effect, Event, MigrationExportEvent};
use crate::migration::{export_cursor, exported_ids, present, summarized, summary_of};
use crate::operation::{after, is_refused, Moment, Operation};
use crate::plan::plan_found;
use crate::queries::{
    cap_info, existing, found, is_valid_page, lists, next_charge, owned, SubscriptionsPage,
    topup_for,
};
use crate::statement_laws::{
    consistent, live_sequences, newest_first_reverses_oldest_first, sum_of,
};
use crate::statements::{
    absorbed, amounts_of, ascending, checked_total, compacted, compaction, cursor_after,
    earliest_start, keep_threshold, latest_end, page_by_cursor, page_by_offset,
    pruned_sequences, retention, rows_at, shows, Statements,
};
use crate::tables::{listed, window};
use crate::types::{
    Address, BillingCompactionSummary, BillingStatement, BillingStatementAggregate,
    BillingStatementsPage, Error, PlanTemplate, Subscription, SubscriptionStatus,
};
use crate::vault::VaultState;
use vstd::prelude::*;

verus! {

// ── Lists of numbers ─────────────────────────────────────────────────────────

/// The numbers in `from..to` that belong, each once, in ascending order.
pub open spec fn enumerates(
    numbers: Seq<u32>,
    from: int,
    to: int,
    belongs: spec_fn(u32) -> bool,
) -> bool {
    &&& forall|i: int, j: int| 0 <= i < j < numbers.len() ==> numbers[i] < numbers[j]
    &&& forall|n: u32| #[trigger] numbers.contains(n) <==> from <= n < to && belongs(n)
}

proof fn lemma_enumeration_grows(
    rest: Seq<u32>,
    from: int,
    to: int,
    belongs: spec_fn(u32) -> bool,
)
    requires
        0 <= from < to <= 0x1_0000_0000,
        enumerates(rest, from + 1, to, belongs),
        rest.len() <= to - from - 1,
    ensures
        belongs(from as u32) ==> enumerates(seq![from as u32] + rest, from, to, belongs) && (
        seq![from as u32] + rest).len() <= to - from,
        !belongs(from as u32) ==> enumerates(rest, from, to, belongs),
{
    let first = from as u32;
    let whole = seq![first] + rest;
    assert forall|i: int| 0 <= i < rest.len() implies rest[i] > from by {
        assert(rest.contains(rest[i]));
    }
    if belongs(first) {
        assert forall|i: int, j: int| 0 <= i < j < whole.len() implies whole[i] < whole[j] by {
            if i > 0 {
                assert(rest[i - 1] < rest[j - 1]);
            } else {
                assert(whole[j] == rest[j - 1]);
            }
        }
        assert forall|n: u32| #[trigger] whole.contains(n) <==> from <= n < to && belongs(n) by {
            if whole.contains(n) {
                let i = choose|i: int| 0 <= i < whole.len() && whole[i] == n;
                if i > 0 {
                    assert(rest[i - 1] == n);
                    assert(rest.contains(n));
                }
            }
            if n == first {
                assert(whole[0] == n);
            } else if from <= n < to && belongs(n) {
                assert(rest.contains(n));
                let i = choose|i: int| 0 <= i < rest.len() && rest[i] == n;
                assert(whole[i + 1] == n);
            }
        }
    } else {
        assert forall|n: u32| #[trigger] rest.contains(n) <==> from <= n < to && belongs(n) by {
            if n == first {
                assert(!rest.contains(n));
            }
        }
    }
}

/// The subscriptions of a subscriber are listed by their numbers, ascending, all of them and
/// no others.
pub proof fn listing_shows_the_subscribers_own(
    s: VaultState,
    subscriber: Address,
    from: int,
    to: int,
)
    requires
        0 <= from,
        to <= 0x1_0000_0000,
    ensures
        enumerates(
            owned(s, subscriber, from, to),
            from,
            to,
            |id: u32|
                s.subscriptions.contains_key(id) && s.subscriptions[id].subscriber == subscriber,
        ),
        from <= to ==> owned(s, subscriber, from, to).len() <= to - from,
    decreases to - from,
{
    let belongs = |id: u32|
        s.subscriptions.contains_key(id) && s.subscriptions[id].subscriber == subscriber;
    if from < to {
        listing_shows_the_subscribers_own(s, subscriber, from + 1, to);
        lemma_enumeration_grows(owned(s, subscriber, from + 1, to), from, to, belongs);
    }
}

/// The subscriptions that exist are listed by their numbers, ascending, all of them and no
/// others.
pub proof fn export_lists_what_exists(
    subscriptions: Map<u32, Subscription>,
    from: int,
    to: int,
)
    requires
        0 <= from,
        to <= 0x1_0000_0000,
    ensures
        enumerates(
            present(subscriptions, from, to),
            from,
            to,
            |id: u32| subscriptions.contains_key(id),
        ),
        from <= to ==> present(subscriptions, from, to).len() <= to - from,
    decreases to - from,
{
    let belongs = |id: u32| subscriptions.contains_key(id);
    if from < to {
        export_lists_what_exists(subscriptions, from + 1, to);
        lemma_enumeration_grows(present(subscriptions, from + 1, to), from, to, belongs);
    }
}

/// The statements of a subscription are listed by their numbers, ascending, all of them and
/// no others.
pub proof fn history_lists_what_is_kept(
    rows: Map<(u32, u32), BillingStatement>,
    id: u32,
    from: int,
    to: int,
)
    requires
        0 <= from,
        to <= 0x1_0000_0000,
    ensures
        enumerates(
            ascending(rows, id, from, to),
            from,
            to,
            |sequence: u32| rows.contains_key((id, sequence)),
        ),
        from <= to ==> ascending(rows, id, from, to).len() <= to - from,
    decreases to - from,
{
    let belongs = |sequence: u32| rows.contains_key((id, sequence));
    if from < to {
        history_lists_what_is_kept(rows, id, from + 1, to);
        lemma_enumeration_grows(ascending(rows, id, from + 1, to), from, to, belongs);
    }
}

/// The ids that an index lists for an address are those of its entries, in their order.
pub proof fn index_lists_the_entries(index: Seq<(Address, u32)>, who: Address)
    ensures
        listed(index, who) == index.filter(
            |entry: (Address, u32)| entry.0 == who,
        ).map_values(|entry: (Address, u32)| entry.1),
    decreases index.len(),
{
    let own = |entry: (Address, u32)| entry.0 == who;
    let id = |entry: (Address, u32)| entry.1;
    reveal(Seq::filter);
    if index.len() > 0 {
        index_lists_the_entries(index.drop_last(), who);
        let front = index.drop_last().filter(own);
        if own(index.last()) {
            assert(front.push(index.last()).map_values(id) =~= front.map_values(id).push(
                index.last().1,
            ));
        }
    } else {
        assert(listed(index, who) =~= index.filter(own).map_values(id));
    }
}

/// The subscriptions of a list of ids are those that exist, in the order of the list.
pub proof fn subscriptions_follow_their_ids(s: VaultState, ids: Seq<u32>)
    ensures
        existing(s, ids) == ids.filter(|id: u32| s.subscriptions.contains_key(id)).map_values(
            |id: u32| s.subscriptions[id],
        ),
    decreases ids.len(),
{
    let exists_still = |id: u32| s.subscriptions.contains_key(id);
    let look_up = |id: u32| s.subscriptions[id];
    reveal(Seq::filter);
    if ids.len() > 0 {
        subscriptions_follow_their_ids(s, ids.drop_last());
        let front = ids.drop_last().filter(exists_still);
        if exists_still(ids.last()) {
            assert(front.push(ids.last()).map_values(look_up) =~= front.map_values(look_up).push(
                s.subscriptions[ids.last()],
            ));
        }
    } else {
        assert(existing(s, ids) =~= ids.filter(exists_still).map_values(look_up));
    }
}

/// A page of a list holds its items from the offset on, as many as there are up to the limit.
pub proof fn page_holds_the_items_from_the_offset_on<T>(items: Seq<T>, offset: int, limit: int)
    requires
        0 <= offset,
        0 <= limit,
    ensures
        ({
            let page = window(items, offset, limit);
            &&& offset >= items.len() ==> page.len() == 0
            &&& offset < items.len() ==> page.len() == if items.len() - offset < limit {
                items.len() - offset
            } else {
                limit
            }
            &&& forall|i: int| 0 <= i < page.len() ==> #[trigger] page[i] == items[offset + i]
        }),
{
}

/// A page of a subscriber's subscriptions shows the first of them up to the limit, and where
/// to go on if and only if there are more.
pub proof fn listing_page_says_where_to_go_on(
    page: SubscriptionsPage,
    all: Seq<u32>,
    limit: u32,
)
    requires
        lists(page, all, limit),
    ensures
        page.subscription_ids@.len() == if all.len() <= limit {
            all.len()
        } else {
            limit as nat
        },
        forall|i: int|
            0 <= i < page.subscription_ids@.len() ==> #[trigger] page.subscription_ids@[i]
                == all[i],
        page.has_next <==> all.len() > limit,
        page.next_start_id is Some <==> all.len() > limit,
        all.len() > limit ==> page.next_start_id == Some(all[limit as int]),
{
}

/// A page of subscriptions has from one to a hundred entries.
pub proof fn listing_pages_are_bounded(limit: u32)
    ensures
        is_valid_page(limit) <==> 1 <= limit && limit <= 100,
{
}

// ── One subscription ─────────────────────────────────────────────────────────

/// A subscription or a plan is found if and only if it exists, and as it is.
pub proof fn what_exists_is_found(s: VaultState, id: u32)
    ensures
        s.subscriptions.contains_key(id) ==> found(s, id) == Ok::<Subscription, Error>(
            s.subscriptions[id],
        ),
        !s.subscriptions.contains_key(id) ==> found(s, id) == Err::<Subscription, Error>(
            Error::NotFound,
        ),
        s.plans.contains_key(id) ==> plan_found(s, id) == Ok::<PlanTemplate, Error>(s.plans[id]),
        !s.plans.contains_key(id) ==> plan_found(s, id) == Err::<PlanTemplate, Error>(
            Error::NotFound,
        ),
{
}

/// The next charge is due one interval after the last payment, or at the end of the clock
/// where that is later; none is expected of a paused or a cancelled subscription.
pub proof fn next_charge_is_one_interval_on(sub: Subscription)
    ensures
        ({
            let due = sub.last_payment_timestamp + sub.interval_seconds;
            let info = next_charge(sub);
            &&& due <= u64::MAX ==> info.next_charge_timestamp == due
            &&& due > u64::MAX ==> info.next_charge_timestamp == u64::MAX
            &&& info.is_charge_expected <==> sub.status == SubscriptionStatus::Active || sub.status
                == SubscriptionStatus::InsufficientBalance || sub.status
                == SubscriptionStatus::GracePeriod
        }),
{
}

/// The report on a cap shows the cap, the charged total and what is left of the cap, never
/// less than nothing; without a cap nothing is left to show. A cap is reached once as much was
/// charged.
pub proof fn cap_report_shows_what_is_left(sub: Subscription)
    requires
        sub.lifetime_charged >= 0,
    ensures
        ({
            let info = cap_info(sub);
            &&& info.lifetime_cap == sub.lifetime_cap
            &&& info.lifetime_charged == sub.lifetime_charged
            &&& sub.lifetime_cap is None ==> info.remaining_cap is None && !info.cap_reached
            &&& sub.lifetime_cap is Some ==> info.remaining_cap is Some
            &&& sub.lifetime_cap is Some && sub.lifetime_charged < sub.lifetime_cap->Some_0
                ==> info.remaining_cap->Some_0 + sub.lifetime_charged == sub.lifetime_cap->Some_0
                && !info.cap_reached
            &&& sub.lifetime_cap is Some && sub.lifetime_charged >= sub.lifetime_cap->Some_0
                ==> info.remaining_cap->Some_0 == 0 && info.cap_reached
        }),
{
}

/// The top-up for some intervals is what their price exceeds the balance by, and nothing
/// where the balance covers them; it is refused where the machine cannot hold the price.
pub proof fn topup_is_what_is_missing(sub: Subscription, intervals: u32)
    requires
        sub.prepaid_balance >= 0,
    ensures
        ({
            let price = sub.amount * intervals;
            let topup = topup_for(sub, intervals);
            if intervals > 0 && price > i128::MAX {
                topup == Err::<i128, Error>(Error::Overflow)
            } else if intervals > 0 && price < i128::MIN {
                topup == Err::<i128, Error>(Error::Underflow)
            } else if price > sub.prepaid_balance {
                topup is Ok && topup->Ok_0 == price - sub.prepaid_balance
            } else {
                topup == Ok::<i128, Error>(0)
            }
        }),
{
    assert(intervals == 0 ==> sub.amount * intervals == 0) by (nonlinear_arith);
}

// ── Exports ──────────────────────────────────────────────────────────────────

/// A summary shows a subscription field by field.
pub proof fn summary_shows_the_subscription(id: u32, sub: Subscription)
    ensures
        ({
            let summary = summary_of(id, sub);
            &&& summary.subscription_id == id
            &&& summary.subscriber == sub.subscriber
            &&& summary.merchant == sub.merchant
            &&& summary.token == sub.token
            &&& summary.amount == sub.amount
            &&& summary.interval_seconds == sub.interval_seconds
            &&& summary.last_payment_timestamp == sub.last_payment_timestamp
            &&& summary.status == sub.status
            &&& summary.prepaid_balance == sub.prepaid_balance
            &&& summary.usage_enabled == sub.usage_enabled
            &&& summary.lifetime_cap == sub.lifetime_cap
            &&& summary.lifetime_charged == sub.lifetime_charged
        }),
{
}

/// Summaries follow the ids one by one.
pub proof fn summaries_follow_the_ids(subscriptions: Map<u32, Subscription>, ids: Seq<u32>)
    ensures
        summarized(subscriptions, ids).len() == ids.len(),
        forall|i: int|
            0 <= i < ids.len() ==> #[trigger] summarized(subscriptions, ids)[i] == summary_of(
                ids[i],
                subscriptions[ids[i]],
            ),
{
}

/// An export of summaries covers as many numbers as the limit says, from the first one asked
/// for on, of which it shows all that exist; their number is announced.
pub proof fn export_covers_the_range(
    s: VaultState,
    m: Moment,
    admin: Address,
    start_id: u32,
    limit: u32,
)
    ensures
        enumerates(
            exported_ids(s, start_id, limit),
            start_id as int,
            start_id + limit,
            |id: u32| s.subscriptions.contains_key(id) && id < s.next_id,
        ),
        ({
            let op = Operation::ExportSubscriptionSummaries { admin, start_id, limit };
            let t = after(s, m, op);
            !is_refused(s, m, op) ==> t.outbox == s.outbox.push(
                Effect::Publish(
                    Event::MigrationExport(
                        MigrationExportEvent {
                            admin,
                            start_id,
                            limit,
                            exported: exported_ids(s, start_id, limit).len() as u32,
                            timestamp: m.now,
                        },
                    ),
                ),
            )
        }),
{
    let end = if start_id + limit < s.next_id {
        start_id + limit
    } else {
        s.next_id as int
    };
    export_lists_what_exists(s.subscriptions, start_id as int, end);
    let ids = exported_ids(s, start_id, limit);
    let here = |id: u32| s.subscriptions.contains_key(id);
    assert(enumerates(ids, start_id as int, end, here));
    assert forall|n: u32| #[trigger] ids.contains(n) <==> start_id <= n < start_id + limit
        && s.subscriptions.contains_key(n) && n < s.next_id by {
        assert(ids.contains(n) <==> start_id <= n < end && here(n));
    }
    reveal(is_refused);
}

/// An export that takes as many as the limit goes on behind the last one that it took; one
/// that finds fewer has come to the end of the numbers, or stays where it started beyond it.
pub proof fn export_goes_on_behind_the_last(
    all: Seq<u32>,
    start_id: u32,
    next_id: u32,
    limit: u32,
)
    requires
        limit > 0,
        forall|i: int| 0 <= i < all.len() ==> #[trigger] all[i] < next_id,
    ensures
        ({
            let cursor = export_cursor(all, start_id, next_id, limit);
            &&& all.len() >= limit ==> cursor == all[limit - 1] + 1
            &&& all.len() < limit ==> cursor == if next_id <= start_id {
                start_id
            } else {
                next_id
            }
        }),
{
}

// ── The billing history ──────────────────────────────────────────────────────

/// A page of statements shows the rows of its numbers one by one, where to go on, and how
/// many statements the subscription has in detail.
pub proof fn statement_page_shows_its_rows(
    page: BillingStatementsPage,
    s: Statements,
    id: u32,
    sequences: Seq<u32>,
    next_cursor: Option<u32>,
)
    requires
        shows(page, s, id, sequences, next_cursor),
    ensures
        page.statements@.len() == sequences.len(),
        forall|i: int|
            0 <= i < sequences.len() ==> #[trigger] page.statements@[i] == s.rows[(
                id,
                sequences[i],
            )],
        page.next_cursor == next_cursor,
        page.total == number(s.live, id),
{
}

/// Where a page of statements goes on: with the number below its last one, newest first, or
/// above it, oldest first, if and only if it is full and such a number was given out.
pub proof fn page_goes_on_after_its_last_row(
    page: Seq<u32>,
    limit: u32,
    next: u32,
    newest_first: bool,
)
    requires
        forall|i: int| 0 <= i < page.len() ==> #[trigger] page[i] < next,
    ensures
        ({
            let cursor = cursor_after(page, limit, next, newest_first);
            let is_full = page.len() > 0 && page.len() >= limit;
            &&& cursor is Some <==> is_full && if newest_first {
                page.last() > 0
            } else {
                page.last() + 1 < next
            }
            &&& cursor is Some && newest_first ==> cursor->Some_0 + 1 == page.last()
            &&& cursor is Some && !newest_first ==> cursor->Some_0 == page.last() + 1
        }),
{
}

/// A page by offset shows the statements from the offset on, as many as there are up to the
/// limit, counted from the newest or from the oldest one.
pub proof fn offset_page_counts_from_its_end(
    s: Statements,
    id: u32,
    offset: u32,
    limit: u32,
    newest_first: bool,
)
    requires
        consistent(s),
    ensures
        ({
            let all = live_sequences(s, id);
            let page = page_by_offset(s, id, offset, limit, newest_first);
            &&& page.len() == if offset >= all.len() {
                0
            } else if all.len() - offset < limit {
                all.len() - offset
            } else {
                limit as int
            }
            &&& forall|i: int|
                0 <= i < page.len() ==> #[trigger] page[i] == if newest_first {
                    all[all.len() - 1 - offset - i]
                } else {
                    all[offset + i]
                }
        }),
{
    let all = live_sequences(s, id);
    assert(all.len() == number(s.live, id));
    newest_first_reverses_oldest_first(s.rows, id, number(s.next, id) as u32);
}

/// A page by cursor shows the statements from the cursor on, down to the oldest or up to the
/// newest one, as many as there are up to the limit. Without a cursor it starts with the
/// newest or with the oldest one; a cursor beyond the newest number shows nothing.
pub proof fn cursor_page_starts_at_the_cursor(
    s: Statements,
    id: u32,
    cursor: Option<u32>,
    limit: u32,
    newest_first: bool,
)
    requires
        consistent(s),
    ensures
        ({
            let next = number(s.next, id);
            let page = page_by_cursor(s, id, cursor, limit, newest_first);
            let older = ascending(
                s.rows,
                id,
                0,
                if cursor is Some {
                    cursor->Some_0 + 1
                } else {
                    next
                },
            );
            let newer = ascending(
                s.rows,
                id,
                if cursor is Some {
                    cursor->Some_0 as int
                } else {
                    0
                },
                next,
            );
            &&& cursor is Some && cursor->Some_0 >= next ==> page.len() == 0
            &&& (cursor is None || cursor->Some_0 < next) && newest_first ==> {
                &&& page.len() == if older.len() < limit {
                    older.len() as int
                } else {
                    limit as int
                }
                &&& forall|i: int|
                    0 <= i < page.len() ==> #[trigger] page[i] == older[older.len() - 1 - i]
            }
            &&& (cursor is None || cursor->Some_0 < next) && !newest_first ==> {
                &&& page.len() == if newer.len() < limit {
                    newer.len() as int
                } else {
                    limit as int
                }
                &&& forall|i: int| 0 <= i < page.len() ==> #[trigger] page[i] == newer[i]
            }
        }),
{
    let next = number(s.next, id);
    let all = live_sequences(s, id);
    assert(all.len() == number(s.live, id));
    let end = if cursor is Some {
        cursor->Some_0 + 1
    } else {
        next
    };
    let start = if cursor is Some {
        cursor->Some_0 as int
    } else {
        0
    };
    if end <= next {
        newest_first_reverses_oldest_first(s.rows, id, end as u32);
    }
    if all.len() == 0 && end <= next {
        history_lists_what_is_kept(s.rows, id, 0, next);
        history_lists_what_is_kept(s.rows, id, 0, end);
        history_lists_what_is_kept(s.rows, id, start, next);
        let older = ascending(s.rows, id, 0, end);
        let newer = ascending(s.rows, id, start, next);
        if older.len() > 0 {
            assert(older.contains(older[0]));
            assert(all.contains(older[0]));
        }
        if newer.len() > 0 {
            assert(newer.contains(newer[0]));
            assert(all.contains(newer[0]));
        }
    }
}

/// How many statements a compaction keeps: as many as it is told, else as many as the
/// retention says, else all.
pub proof fn compaction_keeps_what_is_asked(s: Statements, keep_recent_override: Option<u32>)
    ensures
        retention(s) == if s.keep_recent is Some {
            s.keep_recent->Some_0
        } else {
            u32::MAX
        },
        keep_threshold(s, keep_recent_override) == if keep_recent_override is Some {
            keep_recent_override->Some_0
        } else {
            retention(s)
        },
{
}

/// What was pruned of a subscription is as recorded, and nothing where nothing was.
pub proof fn pruned_totals_are_as_recorded(s: Statements, id: u32)
    ensures
        s.aggregates.contains_key(id) ==> compacted(s, id) == s.aggregates[id],
        !s.aggregates.contains_key(id) ==> compacted(s, id) == (BillingStatementAggregate {
            pruned_count: 0,
            total_amount: 0,
            oldest_period_start: None,
            newest_period_end: None,
        }),
{
}

proof fn lemma_earliest(rows: Seq<BillingStatement>)
    ensures
        rows.len() == 0 <==> earliest_start(rows) is None,
        forall|i: int|
            0 <= i < rows.len() ==> earliest_start(rows)->Some_0 <= (
            #[trigger] rows[i]).period_start,
        rows.len() > 0 ==> exists|i: int|
            0 <= i < rows.len() && (#[trigger] rows[i]).period_start == earliest_start(
                rows,
            )->Some_0,
    decreases rows.len(),
{
    if rows.len() > 0 {
        let front = rows.drop_last();
        lemma_earliest(front);
        assert forall|i: int| 0 <= i < rows.len() implies earliest_start(rows)->Some_0 <= (
        #[trigger] rows[i]).period_start by {
            if i < front.len() {
                assert(front[i] == rows[i]);
            }
        }
        if earliest_start(rows)->Some_0 == rows.last().period_start {
            assert(rows[rows.len() - 1].period_start == earliest_start(rows)->Some_0);
        } else {
            let i = choose|i: int|
                0 <= i < front.len() && (#[trigger] front[i]).period_start == earliest_start(
                    front,
                )->Some_0;
            assert(rows[i] == front[i]);
        }
    }
}

proof fn lemma_latest(rows: Seq<BillingStatement>)
    ensures
        rows.len() == 0 <==> latest_end(rows) is None,
        forall|i: int|
            0 <= i < rows.len() ==> latest_end(rows)->Some_0 >= (#[trigger] rows[i]).period_end,
        rows.len() > 0 ==> exists|i: int|
            0 <= i < rows.len() && (#[trigger] rows[i]).period_end == latest_end(rows)->Some_0,
    decreases rows.len(),
{
    if rows.len() > 0 {
        let front = rows.drop_last();
        lemma_latest(front);
        assert forall|i: int| 0 <= i < rows.len() implies latest_end(rows)->Some_0 >= (
        #[trigger] rows[i]).period_end by {
            if i < front.len() {
                assert(front[i] == rows[i]);
            }
        }
        if latest_end(rows)->Some_0 == rows.last().period_end {
            assert(rows[rows.len() - 1].period_end == latest_end(rows)->Some_0);
        } else {
            let i = choose|i: int|
                0 <= i < front.len() && (#[trigger] front[i]).period_end == latest_end(
                    front,
                )->Some_0;
            assert(rows[i] == front[i]);
        }
    }
}

/// Rows that are pruned join the totals: their number is added, and the earliest start and
/// the latest end of a period are those of all rows that were ever pruned.
pub proof fn pruned_rows_join_the_totals(
    aggregate: BillingStatementAggregate,
    rows: Seq<BillingStatement>,
    total_amount: i128,
)
    requires
        rows.len() > 0,
        aggregate.pruned_count + rows.len() <= u32::MAX,
    ensures
        ({
            let joined = absorbed(aggregate, rows, total_amount);
            let start = joined.oldest_period_start;
            let end = joined.newest_period_end;
            &&& joined.pruned_count == aggregate.pruned_count + rows.len()
            &&& joined.total_amount == total_amount
            &&& start is Some
            &&& end is Some
            &&& forall|i: int|
                0 <= i < rows.len() ==> start->Some_0 <= (#[trigger] rows[i]).period_start
                    && rows[i].period_end <= end->Some_0
            &&& aggregate.oldest_period_start is Some ==> start->Some_0
                <= aggregate.oldest_period_start->Some_0
            &&& aggregate.newest_period_end is Some ==> aggregate.newest_period_end->Some_0
                <= end->Some_0
            &&& start == aggregate.oldest_period_start || exists|i: int|
                0 <= i < rows.len() && (#[trigger] rows[i]).period_start == start->Some_0
            &&& end == aggregate.newest_period_end || exists|i: int|
                0 <= i < rows.len() && (#[trigger] rows[i]).period_end == end->Some_0
        }),
{
    lemma_earliest(rows);
    lemma_latest(rows);
}

/// A compaction prunes the oldest statements beyond the number that is kept, adds them to
/// the totals and reports how many they were, how many stay and what they amounted to. Where
/// no more than that are kept it does nothing.
pub proof fn compaction_reports_what_it_prunes(s: Statements, id: u32, keep: u32)
    requires
        consistent(s),
    ensures
        ({
            let (t, result) = compaction(s, id, keep);
            let all = live_sequences(s, id);
            let pruned = all.take(all.len() - keep);
            let rows = rows_at(s.rows, id, pruned);
            if all.len() <= keep {
                t == s && result == Ok::<BillingCompactionSummary, Error>(
                    BillingCompactionSummary {
                        subscription_id: id,
                        pruned_count: 0,
                        kept_count: all.len() as u32,
                        total_pruned_amount: 0,
                    },
                )
            } else if result is Err {
                t == s
            } else {
                &&& (result->Ok_0).subscription_id == id
                &&& (result->Ok_0).pruned_count == all.len() - keep
                &&& (result->Ok_0).kept_count == keep
                &&& t.live == s.live.insert(id, keep)
                &&& t.aggregates == s.aggregates.insert(
                    id,
                    absorbed(
                        compacted(s, id),
                        rows,
                        (compacted(s, id).total_amount + (
                        result->Ok_0).total_pruned_amount) as i128,
                    ),
                )
                &&& t.next == s.next
                &&& t.keep_recent == s.keep_recent
            }
        }),
{
    let all = live_sequences(s, id);
    assert(all.len() == number(s.live, id));
    if all.len() > keep {
        assert(pruned_sequences(s, id, keep) =~= all.take(all.len() - keep));
    }
}

proof fn lemma_total_is_known(amounts: Seq<i128>, below: int)
    requires
        0 <= below <= amounts.len(),
        forall|i: int| 0 <= i < amounts.len() ==> #[trigger] amounts[i] >= 0,
        sum_of(amounts) <= i128::MAX,
    ensures
        0 <= sum_of(amounts.take(below)) <= sum_of(amounts),
        checked_total(amounts.take(below)) is Ok,
        checked_total(amounts.take(below))->Ok_0 == sum_of(amounts.take(below)),
    decreases amounts.len(), below,
{
    if below < amounts.len() {
        let front = amounts.drop_last();
        assert(sum_of(front) <= sum_of(amounts));
        lemma_total_is_known(front, below);
        assert(front.take(below) =~= amounts.take(below));
    } else if below > 0 {
        let front = amounts.drop_last();
        lemma_total_is_known(front, below - 1);
        assert(amounts.take(below) =~= amounts);
        assert(front.take(below - 1) =~= front);
    }
}

/// A compaction of amounts that are not negative succeeds whenever the machine's numbers hold
/// their sum and the total that comes of it, and reports that sum.
pub proof fn compaction_succeeds_within_range(s: Statements, id: u32, keep: u32)
    requires
        consistent(s),
        live_sequences(s, id).len() > keep,
        forall|row: (u32, u32)| #[trigger] s.rows.contains_key(row) ==> s.rows[row].amount >= 0,
        compacted(s, id).total_amount >= 0,
        compacted(s, id).total_amount + sum_of(
            amounts_of(
                rows_at(
                    s.rows,
                    id,
                    live_sequences(s, id).take(live_sequences(s, id).len() - keep),
                ),
            ),
        ) <= i128::MAX,
    ensures
        compaction(s, id, keep).1 is Ok,
        (compaction(s, id, keep).1->Ok_0).total_pruned_amount == sum_of(
            amounts_of(
                rows_at(
                    s.rows,
                    id,
                    live_sequences(s, id).take(live_sequences(s, id).len() - keep),
                ),
            ),
        ),
{
    let all = live_sequences(s, id);
    let pruned = all.take(all.len() - keep);
    assert(all.len() == number(s.live, id));
    assert(pruned_sequences(s, id, keep) =~= pruned);
    let amounts = amounts_of(rows_at(s.rows, id, pruned));
    history_lists_what_is_kept(s.rows, id, 0, number(s.next, id));
    assert forall|i: int| 0 <= i < amounts.len() implies #[trigger] amounts[i] >= 0 by {
        assert(all.contains(all[i]));
        assert(s.rows.contains_key((id, all[i])));
    }
    lemma_total_is_known(amounts, amounts.len() as int);
    assert(amounts.take(amounts.len() as int) =~= amounts);
}

/// A compaction is announced with what it pruned and with the totals that came of it, and
/// changes nothing but the history.
pub proof fn compaction_is_announced(
    s: VaultState,
    statements: Statements,
    summary: BillingCompactionSummary,
    admin: Address,
    now: u64,
)
    ensures
        ({
            let t = with_compaction(s, statements, summary, admin, now);
            let totals = compacted(statements, summary.subscription_id);
            &&& t.statements == statements
            &&& t.outbox == s.outbox.push(
                Effect::Publish(
                    Event::BillingCompacted(
                        BillingCompactedEvent {
                            admin,
                            subscription_id: summary.subscription_id,
                            pruned_count: summary.pruned_count,
                            kept_count: summary.kept_count,
                            total_pruned_amount: summary.total_pruned_amount,
                            aggregate_pruned_count: totals.pruned_count,
                            aggregate_total_amount: totals.total_amount,
                            aggregate_oldest_period_start: totals.oldest_period_start,
                            aggregate_newest_period_end: totals.newest_period_end,
                            timestamp: now,
                        },
                    ),
                ),
            )
            &&& t == (VaultState { statements: t.statements, outbox: t.outbox, ..s })
        }),
{
}

} // verus!
