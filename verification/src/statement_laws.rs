//! What holds of the billing history whatever is appended, compacted and paged through.
use crate::statements::{
    amounts_of, ascending, checked_total, compacted, compaction, counted, cursor_after,
    descending, keep_threshold, page_by_cursor, page_by_offset, pruned_sequences, rows_at,
    statement_row, with_statement, without_rows, Statements,
};
use crate::tables::window;
use crate::types::{
    Address, BillingChargeKind, BillingCompactionSummary, BillingStatement, Error,
};
use vstd::prelude::*;

verus! {

/// The sum of some amounts.
pub open spec fn sum_of(amounts: Seq<i128>) -> int
    decreases amounts.len(),
{
    if amounts.len() == 0 {
        0
    } else {
        sum_of(amounts.drop_last()) + amounts.last()
    }
}

/// Sequence numbers of a subscription's rows, oldest first.
pub open spec fn live_sequences(s: Statements, subscription_id: u32) -> Seq<u32> {
    ascending(s.rows, subscription_id, 0, counted(s.next, subscription_id) as int)
}

/// Everything that was ever billed to a subscription: what is held in detail and what was
/// pruned.
pub open spec fn billed_total(s: Statements, subscription_id: u32) -> int {
    compacted(s, subscription_id).total_amount + sum_of(
        amounts_of(rows_at(s.rows, subscription_id, live_sequences(s, subscription_id))),
    )
}

/// The history is consistent: every row stands under its own id and sequence number, below
/// the next one, and the number of rows is the number reported.
pub open spec fn consistent(s: Statements) -> bool {
    &&& forall|row: (u32, u32)| #[trigger]
        s.rows.contains_key(row) ==> {
            &&& row.1 < counted(s.next, row.0)
            &&& s.rows[row].subscription_id == row.0
            &&& s.rows[row].sequence == row.1
        }
    &&& forall|id: u32|
        (#[trigger] live_sequences(s, id)).len() == counted(s.live, id)
}

proof fn lemma_members(
    rows: Map<(u32, u32), BillingStatement>,
    id: u32,
    from: int,
    to: int,
    q: u32,
)
    requires
        0 <= from,
        to <= 0x1_0000_0000,
    ensures
        ascending(rows, id, from, to).contains(q) <==> from <= q < to && rows.contains_key(
            (id, q),
        ),
    decreases to - from,
{
    if from < to {
        lemma_members(rows, id, from + 1, to, q);
        let rest = ascending(rows, id, from + 1, to);
        if rows.contains_key((id, from as u32)) {
            let whole = seq![from as u32] + rest;
            if rest.contains(q) {
                let i = choose|i: int| 0 <= i < rest.len() && rest[i] == q;
                assert(whole[i + 1] == q);
            }
            if q == from {
                assert(whole[0] == q);
            }
            if whole.contains(q) {
                let i = choose|i: int| 0 <= i < whole.len() && whole[i] == q;
                if i > 0 {
                    assert(rest[i - 1] == q);
                }
            }
        }
    }
}

proof fn lemma_split(
    rows: Map<(u32, u32), BillingStatement>,
    id: u32,
    from: int,
    mid: int,
    to: int,
)
    requires
        from <= mid <= to,
    ensures
        ascending(rows, id, from, to) == ascending(rows, id, from, mid) + ascending(
            rows,
            id,
            mid,
            to,
        ),
    decreases mid - from,
{
    if from < mid {
        lemma_split(rows, id, from + 1, mid, to);
    }
    assert(ascending(rows, id, from, to) =~= ascending(rows, id, from, mid) + ascending(
        rows,
        id,
        mid,
        to,
    ));
}

proof fn lemma_same_presence(
    a: Map<(u32, u32), BillingStatement>,
    b: Map<(u32, u32), BillingStatement>,
    id: u32,
    from: int,
    to: int,
)
    requires
        0 <= from,
        to <= 0x1_0000_0000,
        forall|q: u32|
            from <= q < to ==> (#[trigger] a.contains_key((id, q)) <==> b.contains_key((id, q))),
    ensures
        ascending(a, id, from, to) == ascending(b, id, from, to),
    decreases to - from,
{
    if from < to {
        assert(a.contains_key((id, from as u32)) <==> b.contains_key((id, from as u32)));
        lemma_same_presence(a, b, id, from + 1, to);
    }
}

proof fn lemma_absence(
    rows: Map<(u32, u32), BillingStatement>,
    id: u32,
    from: int,
    to: int,
)
    requires
        0 <= from,
        to <= 0x1_0000_0000,
        forall|q: u32| from <= q < to ==> !#[trigger] rows.contains_key((id, q)),
    ensures
        ascending(rows, id, from, to).len() == 0,
    decreases to - from,
{
    if from < to {
        assert(!rows.contains_key((id, from as u32)));
        lemma_absence(rows, id, from + 1, to);
    }
}

proof fn lemma_at_most_one_each(
    rows: Map<(u32, u32), BillingStatement>,
    id: u32,
    from: int,
    to: int,
)
    requires
        from <= to,
    ensures
        ascending(rows, id, from, to).len() <= to - from,
    decreases to - from,
{
    if from < to {
        lemma_at_most_one_each(rows, id, from + 1, to);
    }
}

/// What follows a row, oldest first, are the rows above it.
proof fn lemma_ascending_suffix(
    rows: Map<(u32, u32), BillingStatement>,
    id: u32,
    from: int,
    to: int,
    i: int,
)
    requires
        0 <= from,
        to <= 0x1_0000_0000,
        0 <= i < ascending(rows, id, from, to).len(),
    ensures
        from <= ascending(rows, id, from, to)[i] < to,
        ascending(rows, id, from, to).skip(i + 1) == ascending(
            rows,
            id,
            ascending(rows, id, from, to)[i] + 1,
            to,
        ),
    decreases to - from,
{
    let whole = ascending(rows, id, from, to);
    let rest = ascending(rows, id, from + 1, to);
    if rows.contains_key((id, from as u32)) {
        assert(whole == seq![from as u32] + rest);
        if i == 0 {
            assert(whole.skip(1) =~= rest);
        } else {
            lemma_ascending_suffix(rows, id, from + 1, to, i - 1);
            assert(whole.skip(i + 1) =~= rest.skip(i));
            assert(whole[i] == rest[i - 1]);
        }
    } else {
        lemma_ascending_suffix(rows, id, from + 1, to, i);
    }
}

/// What follows a row, newest first, are the rows below it.
proof fn lemma_descending_suffix(
    rows: Map<(u32, u32), BillingStatement>,
    id: u32,
    to: int,
    i: int,
)
    requires
        to <= 0x1_0000_0000,
        0 <= i < descending(rows, id, to).len(),
    ensures
        descending(rows, id, to)[i] < to,
        descending(rows, id, to).skip(i + 1) == descending(
            rows,
            id,
            descending(rows, id, to)[i] as int,
        ),
    decreases to,
{
    let whole = descending(rows, id, to);
    let rest = descending(rows, id, to - 1);
    if rows.contains_key((id, (to - 1) as u32)) {
        assert(whole == seq![(to - 1) as u32] + rest);
        if i == 0 {
            assert(whole.skip(1) =~= rest);
        } else {
            lemma_descending_suffix(rows, id, to - 1, i - 1);
            assert(whole.skip(i + 1) =~= rest.skip(i));
            assert(whole[i] == rest[i - 1]);
        }
    } else {
        lemma_descending_suffix(rows, id, to - 1, i);
    }
}

/// Newest first is oldest first, read from the end.
pub proof fn newest_first_reverses_oldest_first(
    rows: Map<(u32, u32), BillingStatement>,
    subscription_id: u32,
    to: u32,
)
    ensures
        descending(rows, subscription_id, to as int) == ascending(
            rows,
            subscription_id,
            0,
            to as int,
        ).reverse(),
    decreases to,
{
    if to > 0 {
        let below = (to - 1) as u32;
        newest_first_reverses_oldest_first(rows, subscription_id, below);
        lemma_split(rows, subscription_id, 0, below as int, to as int);
        let last = ascending(rows, subscription_id, below as int, to as int);
        assert(ascending(rows, subscription_id, to as int, to as int).len() == 0);
        if rows.contains_key((subscription_id, below)) {
            assert(last =~= seq![below]);
        } else {
            assert(last =~= Seq::<u32>::empty());
        }
        assert(descending(rows, subscription_id, to as int) =~= ascending(
            rows,
            subscription_id,
            0,
            to as int,
        ).reverse());
    } else {
        assert(descending(rows, subscription_id, 0) =~= ascending(
            rows,
            subscription_id,
            0,
            0,
        ).reverse());
    }
}

/// Reading by offset is stable: two pages that follow each other show together what one
/// larger page shows, so no row is shown twice and none is left out.
pub proof fn offset_pages_join(
    s: Statements,
    subscription_id: u32,
    offset: u32,
    first: u32,
    second: u32,
    newest_first: bool,
)
    requires
        consistent(s),
        offset + first <= u32::MAX,
        first + second <= u32::MAX,
    ensures
        page_by_offset(s, subscription_id, offset, first, newest_first) + page_by_offset(
            s,
            subscription_id,
            (offset + first) as u32,
            second,
            newest_first,
        ) == page_by_offset(
            s,
            subscription_id,
            offset,
            (first + second) as u32,
            newest_first,
        ),
{
    let next = counted(s.next, subscription_id);
    newest_first_reverses_oldest_first(s.rows, subscription_id, next);
    assert(live_sequences(s, subscription_id).len() == counted(s.live, subscription_id));
    assert(page_by_offset(s, subscription_id, offset, first, newest_first) + page_by_offset(
        s,
        subscription_id,
        (offset + first) as u32,
        second,
        newest_first,
    ) =~= page_by_offset(s, subscription_id, offset, (first + second) as u32, newest_first));
}

/// A page by offset 0 that is large enough shows every row.
pub proof fn large_page_shows_all(s: Statements, subscription_id: u32, limit: u32)
    requires
        consistent(s),
        limit >= counted(s.live, subscription_id),
    ensures
        page_by_offset(s, subscription_id, 0, limit, false) == live_sequences(
            s,
            subscription_id,
        ),
        page_by_offset(s, subscription_id, 0, limit, true) == live_sequences(
            s,
            subscription_id,
        ).reverse(),
{
    let next = counted(s.next, subscription_id);
    newest_first_reverses_oldest_first(s.rows, subscription_id, next);
    assert(live_sequences(s, subscription_id).len() == counted(s.live, subscription_id));
    assert(page_by_offset(s, subscription_id, 0, limit, false) =~= live_sequences(
        s,
        subscription_id,
    ));
    assert(page_by_offset(s, subscription_id, 0, limit, true) =~= live_sequences(
        s,
        subscription_id,
    ).reverse());
}

/// Following the cursor goes on exactly where a page ended: the page and the next one show
/// together what one larger page shows. A page without a cursor is the last.
pub proof fn cursor_continues_the_page(
    s: Statements,
    subscription_id: u32,
    cursor: Option<u32>,
    limit: u32,
    further: u32,
    newest_first: bool,
)
    requires
        limit > 0,
        limit + further <= u32::MAX,
    ensures
        ({
            let next = counted(s.next, subscription_id);
            let page = page_by_cursor(s, subscription_id, cursor, limit, newest_first);
            let larger = page_by_cursor(
                s,
                subscription_id,
                cursor,
                (limit + further) as u32,
                newest_first,
            );
            match cursor_after(page, limit, next, newest_first) {
                Some(c) => page + page_by_cursor(
                    s,
                    subscription_id,
                    Some(c),
                    further,
                    newest_first,
                ) == larger,
                None => page == larger,
            }
        }),
{
    let next = counted(s.next, subscription_id);
    let page = page_by_cursor(s, subscription_id, cursor, limit, newest_first);
    let larger = page_by_cursor(
        s,
        subscription_id,
        cursor,
        (limit + further) as u32,
        newest_first,
    );
    let start = match cursor {
        Some(c) => c as int,
        None => if newest_first {
            next - 1
        } else {
            0
        },
    };
    if counted(s.live, subscription_id) == 0 || start >= next {
        assert(page =~= larger);
    } else {
        let all = if newest_first {
            descending(s.rows, subscription_id, start + 1)
        } else {
            ascending(s.rows, subscription_id, start, next as int)
        };
        if page.len() < limit {
            assert(page =~= larger);
        } else {
            assert(all.len() >= limit);
            assert(page.last() == all[limit - 1]);
            if newest_first {
                lemma_descending_suffix(s.rows, subscription_id, start + 1, limit - 1);
            } else {
                lemma_ascending_suffix(
                    s.rows,
                    subscription_id,
                    start,
                    next as int,
                    limit - 1,
                );
            }
            let rest = all.skip(limit as int);
            assert(all =~= page + rest);
            assert(larger =~= page + window(rest, 0, further as int));
            match cursor_after(page, limit, next, newest_first) {
                Some(c) => {
                    assert(page_by_cursor(s, subscription_id, Some(c), further, newest_first)
                        =~= window(rest, 0, further as int));
                },
                None => {
                    assert(rest.len() == 0);
                    assert(page =~= larger);
                },
            }
        }
    }
}

proof fn lemma_without_rows(
    rows: Map<(u32, u32), BillingStatement>,
    id: u32,
    sequences: Seq<u32>,
    row: (u32, u32),
)
    ensures
        without_rows(rows, id, sequences).contains_key(row) <==> rows.contains_key(row) && !(
        row.0 == id && sequences.contains(row.1)),
        without_rows(rows, id, sequences).contains_key(row) ==> without_rows(
            rows,
            id,
            sequences,
        )[row] == rows[row],
    decreases sequences.len(),
{
    if sequences.len() > 0 {
        lemma_without_rows(rows, id, sequences.drop_last(), row);
        let front = sequences.drop_last();
        if front.contains(row.1) {
            let i = choose|i: int| 0 <= i < front.len() && front[i] == row.1;
            assert(sequences[i] == row.1);
        }
        if sequences.contains(row.1) && row.1 != sequences.last() {
            let i = choose|i: int| 0 <= i < sequences.len() && sequences[i] == row.1;
            assert(front[i] == row.1);
        }
    }
}

proof fn lemma_sum_joins(a: Seq<i128>, b: Seq<i128>)
    ensures
        sum_of(a + b) == sum_of(a) + sum_of(b),
    decreases b.len(),
{
    if b.len() == 0 {
        assert(a + b =~= a);
    } else {
        assert((a + b).drop_last() =~= a + b.drop_last());
        lemma_sum_joins(a, b.drop_last());
    }
}

proof fn lemma_checked_total_is_sum(amounts: Seq<i128>)
    requires
        checked_total(amounts) is Ok,
    ensures
        checked_total(amounts)->Ok_0 == sum_of(amounts),
    decreases amounts.len(),
{
    if amounts.len() > 0 {
        lemma_checked_total_is_sum(amounts.drop_last());
    }
}

/// Pruning the oldest rows leaves the others, in their order.
proof fn lemma_pruned_prefix(
    rows: Map<(u32, u32), BillingStatement>,
    id: u32,
    next: u32,
    count: int,
)
    requires
        0 <= count <= ascending(rows, id, 0, next as int).len(),
    ensures
        ({
            let all = ascending(rows, id, 0, next as int);
            ascending(without_rows(rows, id, all.take(count)), id, 0, next as int)
                == all.skip(count)
        }),
{
    let all = ascending(rows, id, 0, next as int);
    let after = without_rows(rows, id, all.take(count));
    if count == 0 {
        assert(all.take(0) =~= Seq::<u32>::empty());
        assert(all.skip(0) =~= all);
    } else {
        let mid = all[count - 1] + 1;
        lemma_ascending_suffix(rows, id, 0, next as int, count - 1);
        lemma_split(rows, id, 0, mid, next as int);
        let low = ascending(rows, id, 0, mid);
        assert(all.take(count) =~= low) by {
            assert(all.skip(count) == ascending(rows, id, mid, next as int));
            assert(low.len() == count);
        }
        assert forall|q: u32| 0 <= q < mid implies !#[trigger] after.contains_key((id, q)) by {
            lemma_members(rows, id, 0, mid, q);
            lemma_without_rows(rows, id, low, (id, q));
        }
        lemma_absence(after, id, 0, mid);
        assert forall|q: u32| mid <= q < next implies (#[trigger] after.contains_key((id, q))
            <==> rows.contains_key((id, q))) by {
            lemma_members(rows, id, 0, mid, q);
            lemma_without_rows(rows, id, low, (id, q));
        }
        lemma_same_presence(after, rows, id, mid, next as int);
        lemma_split(after, id, 0, mid, next as int);
        assert(ascending(after, id, 0, next as int) =~= all.skip(count));
    }
}

/// Compaction leaves every row that it does not prune exactly as it was, keeps the most
/// recent ones in their order, and touches no other subscription's history.
pub proof fn compaction_keeps_recent_rows(s: Statements, subscription_id: u32, keep: u32)
    requires
        consistent(s),
    ensures
        ({
            let after = compaction(s, subscription_id, keep).0;
            let all = live_sequences(s, subscription_id);
            &&& compaction(s, subscription_id, keep).1 is Ok ==> live_sequences(
                after,
                subscription_id,
            ) == if all.len() <= keep {
                all
            } else {
                all.skip(all.len() - keep)
            }
            &&& forall|row: (u32, u32)| #[trigger]
                after.rows.contains_key(row) ==> s.rows.contains_key(row) && after.rows[row]
                    == s.rows[row]
            &&& forall|row: (u32, u32)|
                row.0 != subscription_id && #[trigger] s.rows.contains_key(row)
                    ==> after.rows.contains_key(row)
            &&& forall|other: u32|
                other != subscription_id ==> #[trigger] compacted(after, other) == compacted(
                    s,
                    other,
                )
        }),
{
    let after = compaction(s, subscription_id, keep).0;
    let all = live_sequences(s, subscription_id);
    let next = counted(s.next, subscription_id);
    assert(all.len() == counted(s.live, subscription_id));
    if compaction(s, subscription_id, keep).1 is Ok && all.len() > keep {
        let pruned = pruned_sequences(s, subscription_id, keep);
        let count = all.len() - keep;
        assert(pruned =~= all.take(count));
        lemma_pruned_prefix(s.rows, subscription_id, next, count);
        assert forall|row: (u32, u32)| #[trigger] after.rows.contains_key(row) implies
            s.rows.contains_key(row) && after.rows[row] == s.rows[row] by {
            lemma_without_rows(s.rows, subscription_id, pruned, row);
        }
        assert forall|row: (u32, u32)|
            row.0 != subscription_id && #[trigger] s.rows.contains_key(row) implies
            after.rows.contains_key(row) by {
            lemma_without_rows(s.rows, subscription_id, pruned, row);
        }
    }
}

/// Compaction conserves what was billed: the detailed amounts and the aggregate together
/// come to the same total before and after, and so do the numbers of rows.
pub proof fn compaction_conserves_totals(s: Statements, subscription_id: u32, keep: u32)
    requires
        consistent(s),
    ensures
        ({
            let (after, result) = compaction(s, subscription_id, keep);
            &&& billed_total(after, subscription_id) == billed_total(s, subscription_id)
            &&& result matches Ok(summary) ==> {
                &&& summary.pruned_count + summary.kept_count == counted(
                    s.live,
                    subscription_id,
                )
                &&& summary.kept_count == counted(after.live, subscription_id)
                &&& compacted(after, subscription_id).total_amount == compacted(
                    s,
                    subscription_id,
                ).total_amount + summary.total_pruned_amount
            }
        }),
{
    let (after, result) = compaction(s, subscription_id, keep);
    let all = live_sequences(s, subscription_id);
    assert(all.len() == counted(s.live, subscription_id));
    if result is Ok && all.len() > keep {
        compaction_keeps_recent_rows(s, subscription_id, keep);
        let count = all.len() - keep;
        let pruned = pruned_sequences(s, subscription_id, keep);
        assert(pruned =~= all.take(count));
        let before = amounts_of(rows_at(s.rows, subscription_id, all));
        let gone = amounts_of(rows_at(s.rows, subscription_id, pruned));
        let kept = amounts_of(rows_at(after.rows, subscription_id, all.skip(count)));
        assert forall|i: int| 0 <= i < kept.len() implies kept[i] == before[count + i] by {
            let q = all.skip(count)[i];
            assert(live_sequences(after, subscription_id)[i] == q);
            assert(live_sequences(after, subscription_id).contains(q));
            lemma_members(
                after.rows,
                subscription_id,
                0,
                counted(after.next, subscription_id) as int,
                q,
            );
            assert(after.rows.contains_key((subscription_id, q)));
        }
        assert(before =~= gone + kept);
        lemma_sum_joins(gone, kept);
        lemma_checked_total_is_sum(gone);
    }
}

/// Compacting again with the same threshold prunes nothing and changes nothing.
pub proof fn repeated_compaction_is_idle(s: Statements, subscription_id: u32, keep: u32)
    requires
        consistent(s),
        compaction(s, subscription_id, keep).1 is Ok,
    ensures
        ({
            let after = compaction(s, subscription_id, keep).0;
            compaction(after, subscription_id, keep) == (
                after,
                Ok::<BillingCompactionSummary, Error>(
                    BillingCompactionSummary {
                        subscription_id,
                        pruned_count: 0,
                        kept_count: counted(after.live, subscription_id),
                        total_pruned_amount: 0,
                    },
                ),
            )
        }),
{
    assert(live_sequences(s, subscription_id).len() == counted(s.live, subscription_id));
}

/// Compaction keeps the history consistent.
pub proof fn compaction_keeps_consistency(s: Statements, subscription_id: u32, keep: u32)
    requires
        consistent(s),
    ensures
        consistent(compaction(s, subscription_id, keep).0),
{
    let (after, result) = compaction(s, subscription_id, keep);
    if result is Ok && counted(s.live, subscription_id) > keep {
        compaction_keeps_recent_rows(s, subscription_id, keep);
        assert forall|id: u32|
            (#[trigger] live_sequences(after, id)).len() == counted(after.live, id) by {
            assert(live_sequences(s, id).len() == counted(s.live, id));
            if id != subscription_id {
                assert forall|q: u32| (#[trigger] after.rows.contains_key((id, q)))
                    <==> s.rows.contains_key((id, q)) by {}
                lemma_same_presence(
                    after.rows,
                    s.rows,
                    id,
                    0,
                    counted(s.next, id) as int,
                );
            }
        }
    }
}

/// Appending a statement keeps the history consistent as long as sequence numbers last,
/// lists the new row last and changes no row that is there.
pub proof fn appended_statement_is_newest(
    s: Statements,
    subscription_id: u32,
    amount: i128,
    merchant: Address,
    kind: BillingChargeKind,
    period_start: u64,
    period_end: u64,
    now: u64,
)
    requires
        consistent(s),
        counted(s.next, subscription_id) < u32::MAX,
    ensures
        ({
            let row = statement_row(
                s,
                subscription_id,
                amount,
                merchant,
                kind,
                period_start,
                period_end,
                now,
            );
            let after = with_statement(s, row);
            &&& consistent(after)
            &&& live_sequences(after, subscription_id) == live_sequences(
                s,
                subscription_id,
            ).push(counted(s.next, subscription_id))
            &&& forall|other: u32|
                other != subscription_id ==> #[trigger] live_sequences(after, other)
                    == live_sequences(s, other)
            &&& forall|old_row: (u32, u32)| #[trigger]
                s.rows.contains_key(old_row) ==> after.rows.contains_key(old_row)
                    && after.rows[old_row] == s.rows[old_row]
            &&& billed_total(after, subscription_id) == billed_total(s, subscription_id) + amount
        }),
{
    let row = statement_row(
        s,
        subscription_id,
        amount,
        merchant,
        kind,
        period_start,
        period_end,
        now,
    );
    let after = with_statement(s, row);
    let next = counted(s.next, subscription_id);
    let all = live_sequences(s, subscription_id);
    assert(!s.rows.contains_key((subscription_id, next)));
    assert(all.len() == counted(s.live, subscription_id));
    lemma_at_most_one_each(s.rows, subscription_id, 0, next as int);
    assert forall|q: u32| 0 <= q < next implies (#[trigger] after.rows.contains_key(
        (subscription_id, q),
    ) <==> s.rows.contains_key((subscription_id, q))) by {}
    lemma_same_presence(after.rows, s.rows, subscription_id, 0, next as int);
    lemma_split(after.rows, subscription_id, 0, next as int, next + 1);
    assert(ascending(after.rows, subscription_id, next + 1, next + 1).len() == 0);
    assert(ascending(after.rows, subscription_id, next as int, next + 1) =~= seq![next]);
    assert(live_sequences(after, subscription_id) =~= all.push(next));
    assert forall|other: u32| other != subscription_id implies #[trigger] live_sequences(
        after,
        other,
    ) == live_sequences(s, other) by {
        assert forall|q: u32| (#[trigger] after.rows.contains_key((other, q)))
            <==> s.rows.contains_key((other, q)) by {}
        lemma_same_presence(after.rows, s.rows, other, 0, counted(s.next, other) as int);
    }
    assert forall|id: u32| (#[trigger] live_sequences(after, id)).len() == counted(
        after.live,
        id,
    ) by {
        assert(live_sequences(s, id).len() == counted(s.live, id));
    }
    let before = amounts_of(rows_at(s.rows, subscription_id, all));
    let now_listed = amounts_of(rows_at(after.rows, subscription_id, all.push(next)));
    assert forall|i: int| 0 <= i < all.len() implies now_listed[i] == before[i] by {
        assert(all.contains(all[i]));
        lemma_members(s.rows, subscription_id, 0, next as int, all[i]);
    }
    assert(now_listed.drop_last() =~= before);
}

/// Histories that agree on a subscription come to the same total for it.
pub(crate) proof fn lemma_same_total(a: Statements, b: Statements, id: u32)
    requires
        counted(a.next, id) == counted(b.next, id),
        compacted(a, id).total_amount == compacted(b, id).total_amount,
        forall|q: u32| #[trigger] a.rows.contains_key((id, q)) <==> b.rows.contains_key((id, q)),
        forall|q: u32|
            #![trigger b.rows[(id, q)]]
            a.rows.contains_key((id, q)) ==> a.rows[(id, q)] == b.rows[(id, q)],
    ensures
        billed_total(a, id) == billed_total(b, id),
{
    let next = counted(a.next, id) as int;
    lemma_same_presence(a.rows, b.rows, id, 0, next);
    let all = live_sequences(a, id);
    assert(live_sequences(b, id) == all);
    assert forall|i: int| 0 <= i < all.len() implies #[trigger] amounts_of(
        rows_at(a.rows, id, all),
    )[i] == amounts_of(rows_at(b.rows, id, all))[i] by {
        assert(all.contains(all[i]));
        lemma_members(a.rows, id, 0, next, all[i]);
        assert(a.rows[(id, all[i])] == b.rows[(id, all[i])]);
    }
    assert(amounts_of(rows_at(a.rows, id, all)) =~= amounts_of(rows_at(b.rows, id, all)));
}

/// A statement of one subscription adds to no other's total.
pub(crate) proof fn lemma_other_totals_after_append(
    s: Statements,
    subscription_id: u32,
    amount: i128,
    merchant: Address,
    kind: BillingChargeKind,
    period_start: u64,
    period_end: u64,
    now: u64,
    other: u32,
)
    requires
        other != subscription_id,
    ensures
        billed_total(
            with_statement(
                s,
                statement_row(
                    s,
                    subscription_id,
                    amount,
                    merchant,
                    kind,
                    period_start,
                    period_end,
                    now,
                ),
            ),
            other,
        ) == billed_total(s, other),
{
    let row = statement_row(
        s,
        subscription_id,
        amount,
        merchant,
        kind,
        period_start,
        period_end,
        now,
    );
    lemma_same_total(with_statement(s, row), s, other);
}

/// Compacting one subscription's history changes no other's total.
pub(crate) proof fn lemma_other_totals_after_compaction(
    s: Statements,
    subscription_id: u32,
    keep: u32,
    other: u32,
)
    requires
        consistent(s),
        other != subscription_id,
    ensures
        billed_total(compaction(s, subscription_id, keep).0, other) == billed_total(s, other),
{
    let after = compaction(s, subscription_id, keep).0;
    compaction_keeps_recent_rows(s, subscription_id, keep);
    assert(compacted(after, other) == compacted(s, other));
    assert forall|q: u32| #[trigger] after.rows.contains_key((other, q)) <==> s.rows.contains_key(
        (other, q),
    ) by {
        assert(s.rows.contains_key((other, q)) ==> after.rows.contains_key((other, q)));
    }
    lemma_same_total(after, s, other);
}

/// Until a retention policy is set, a compaction run that names none prunes nothing.
pub proof fn unset_retention_keeps_everything(s: Statements, subscription_id: u32)
    requires
        s.keep_recent is None,
    ensures
        compaction(s, subscription_id, keep_threshold(s, None)) == (
            s,
            Ok::<BillingCompactionSummary, Error>(
                BillingCompactionSummary {
                    subscription_id,
                    pruned_count: 0,
                    kept_count: counted(s.live, subscription_id),
                    total_pruned_amount: 0,
                },
            ),
        ),
{
}

/// A compaction run that keeps nothing prunes every row; what they came to stays in the
/// aggregate.
pub proof fn keeping_nothing_prunes_everything(s: Statements, subscription_id: u32)
    requires
        consistent(s),
        compaction(s, subscription_id, 0).1 is Ok,
    ensures
        live_sequences(compaction(s, subscription_id, 0).0, subscription_id) == Seq::<u32>::empty(),
        compacted(compaction(s, subscription_id, 0).0, subscription_id).total_amount
            == billed_total(s, subscription_id),
{
    let after = compaction(s, subscription_id, 0).0;
    compaction_keeps_recent_rows(s, subscription_id, 0);
    compaction_conserves_totals(s, subscription_id, 0);
    assert(live_sequences(after, subscription_id) =~= Seq::<u32>::empty());
    assert(amounts_of(rows_at(after.rows, subscription_id, Seq::<u32>::empty())) =~= Seq::<
        i128,
    >::empty());
}

} // verus!
