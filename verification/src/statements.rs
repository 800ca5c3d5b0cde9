//! Billing statement append-only storage, pagination, and compaction.
use crate::safe_math::{amount_of, safe_add};
use crate::tables::{window, IdMap, RowMap};
use crate::types::{
    Address, BillingChargeKind, BillingCompactionSummary, BillingRetentionConfig,
    BillingStatement, BillingStatementAggregate, BillingStatementsPage, Error,
};
use vstd::prelude::*;

verus! {

/// The billing history of all subscriptions, as contracts speak of it.
#[verifier::ext_equal]
pub struct Statements {
    /// Sequence number of each subscription's next statement; 0 where there is none.
    pub next: Map<u32, u32>,
    /// Number of detailed rows held for each subscription; 0 where there is none.
    pub live: Map<u32, u32>,
    /// The detailed rows, by subscription id and sequence number.
    pub rows: Map<(u32, u32), BillingStatement>,
    /// What remains of pruned rows, by subscription id.
    pub aggregates: Map<u32, BillingStatementAggregate>,
    /// The retention policy, once set.
    pub keep_recent: Option<u32>,
}

/// The billing history of all subscriptions.
pub struct StatementBook {
    pub next: IdMap<u32>,
    pub live: IdMap<u32>,
    pub rows: RowMap,
    pub aggregates: IdMap<BillingStatementAggregate>,
    pub keep_recent: Option<u32>,
}

impl View for StatementBook {
    type V = Statements;

    open spec fn view(&self) -> Statements {
        Statements {
            next: self.next@,
            live: self.live@,
            rows: self.rows@,
            aggregates: self.aggregates@,
            keep_recent: self.keep_recent,
        }
    }
}

/// A counter's value, 0 where it was never set.
pub open spec fn counted(counters: Map<u32, u32>, subscription_id: u32) -> u32 {
    match counters.get(subscription_id) {
        Some(n) => n,
        None => 0,
    }
}

/// A counter's next value; the largest is followed by 0.
pub open spec fn successor(n: u32) -> u32 {
    if n == u32::MAX {
        0
    } else {
        (n + 1) as u32
    }
}

/// The history in which nothing was billed.
pub open spec fn no_statements() -> Statements {
    Statements {
        next: Map::empty(),
        live: Map::empty(),
        rows: Map::empty(),
        aggregates: Map::empty(),
        keep_recent: None,
    }
}

/// The row that records a charge.
pub open spec fn statement_row(
    s: Statements,
    subscription_id: u32,
    amount: i128,
    merchant: Address,
    kind: BillingChargeKind,
    period_start: u64,
    period_end: u64,
    now: u64,
) -> BillingStatement {
    BillingStatement {
        subscription_id,
        sequence: counted(s.next, subscription_id),
        charged_at: now,
        period_start,
        period_end,
        amount,
        merchant,
        kind,
    }
}

/// The history after `row` is appended for its subscription.
pub open spec fn with_statement(s: Statements, row: BillingStatement) -> Statements {
    let id = row.subscription_id;
    Statements {
        next: s.next.insert(id, successor(counted(s.next, id))),
        live: s.live.insert(id, successor(counted(s.live, id))),
        rows: s.rows.insert((id, counted(s.next, id)), row),
        ..s
    }
}

/// The retention policy in force: all rows are kept until one is set.
pub open spec fn retention(s: Statements) -> u32 {
    match s.keep_recent {
        Some(keep_recent) => keep_recent,
        None => u32::MAX,
    }
}

/// What remains of a subscription's pruned rows.
pub open spec fn compacted(s: Statements, subscription_id: u32) -> BillingStatementAggregate {
    match s.aggregates.get(subscription_id) {
        Some(aggregate) => aggregate,
        None => BillingStatementAggregate {
            pruned_count: 0,
            total_amount: 0,
            oldest_period_start: None,
            newest_period_end: None,
        },
    }
}

/// Sequence numbers of the rows held in `from..to`, oldest first.
pub open spec fn ascending(
    rows: Map<(u32, u32), BillingStatement>,
    subscription_id: u32,
    from: int,
    to: int,
) -> Seq<u32>
    decreases to - from,
{
    if from >= to {
        Seq::empty()
    } else {
        let rest = ascending(rows, subscription_id, from + 1, to);
        if rows.contains_key((subscription_id, from as u32)) {
            seq![from as u32] + rest
        } else {
            rest
        }
    }
}

/// Sequence numbers of the rows held below `to`, newest first.
pub open spec fn descending(
    rows: Map<(u32, u32), BillingStatement>,
    subscription_id: u32,
    to: int,
) -> Seq<u32>
    decreases to,
{
    if to <= 0 {
        Seq::empty()
    } else {
        let rest = descending(rows, subscription_id, to - 1);
        if rows.contains_key((subscription_id, (to - 1) as u32)) {
            seq![(to - 1) as u32] + rest
        } else {
            rest
        }
    }
}

/// The rows of a subscription with the given sequence numbers.
pub open spec fn rows_at(
    rows: Map<(u32, u32), BillingStatement>,
    subscription_id: u32,
    sequences: Seq<u32>,
) -> Seq<BillingStatement> {
    Seq::new(sequences.len(), |i: int| rows[(subscription_id, sequences[i])])
}

/// Where reading goes on after a page: next to the last row of a full page, unless the
/// history ends there.
pub open spec fn cursor_after(
    page: Seq<u32>,
    limit: u32,
    next: u32,
    newest_first: bool,
) -> Option<u32> {
    if page.len() < limit || page.len() == 0 {
        None
    } else if newest_first {
        if page.last() > 0 {
            Some((page.last() - 1) as u32)
        } else {
            None
        }
    } else if page.last() + 1 < next {
        Some((page.last() + 1) as u32)
    } else {
        None
    }
}

/// A page shows exactly the rows with the given sequence numbers.
pub open spec fn shows(
    page: BillingStatementsPage,
    s: Statements,
    subscription_id: u32,
    sequences: Seq<u32>,
    next_cursor: Option<u32>,
) -> bool {
    &&& page.statements@ == rows_at(s.rows, subscription_id, sequences)
    &&& page.next_cursor == next_cursor
    &&& page.total == counted(s.live, subscription_id)
}

/// The sequence numbers that a page by offset shows.
pub open spec fn page_by_offset(
    s: Statements,
    subscription_id: u32,
    offset: u32,
    limit: u32,
    newest_first: bool,
) -> Seq<u32> {
    let next = counted(s.next, subscription_id) as int;
    if offset >= counted(s.live, subscription_id) {
        Seq::empty()
    } else if newest_first {
        window(descending(s.rows, subscription_id, next), offset as int, limit as int)
    } else {
        window(ascending(s.rows, subscription_id, 0, next), offset as int, limit as int)
    }
}

/// The sequence numbers that a page by cursor shows: the cursor itself comes first, and
/// without one the page starts at the newest or the oldest row.
pub open spec fn page_by_cursor(
    s: Statements,
    subscription_id: u32,
    cursor: Option<u32>,
    limit: u32,
    newest_first: bool,
) -> Seq<u32> {
    let next = counted(s.next, subscription_id) as int;
    let start = match cursor {
        Some(c) => c as int,
        None => if newest_first {
            next - 1
        } else {
            0
        },
    };
    if counted(s.live, subscription_id) == 0 || start >= next {
        Seq::empty()
    } else if newest_first {
        window(descending(s.rows, subscription_id, start + 1), 0, limit as int)
    } else {
        window(ascending(s.rows, subscription_id, start, next), 0, limit as int)
    }
}

/// The sum of amounts, taken from the front with a check after each step.
pub open spec fn checked_total(amounts: Seq<i128>) -> Result<i128, Error>
    decreases amounts.len(),
{
    if amounts.len() == 0 {
        Ok(0)
    } else {
        match checked_total(amounts.drop_last()) {
            Err(e) => Err(e),
            Ok(total) => amount_of(total + amounts.last()),
        }
    }
}

/// The earlier of two times, where there are any.
pub open spec fn earlier(a: Option<u64>, b: Option<u64>) -> Option<u64> {
    match (a, b) {
        (Some(x), Some(y)) => Some(if x <= y { x } else { y }),
        (None, Some(y)) => Some(y),
        (x, None) => x,
    }
}

/// The later of two times, where there are any.
pub open spec fn later(a: Option<u64>, b: Option<u64>) -> Option<u64> {
    match (a, b) {
        (Some(x), Some(y)) => Some(if x >= y { x } else { y }),
        (None, Some(y)) => Some(y),
        (x, None) => x,
    }
}

/// The earliest period start of some rows.
pub open spec fn earliest_start(rows: Seq<BillingStatement>) -> Option<u64>
    decreases rows.len(),
{
    if rows.len() == 0 {
        None
    } else {
        earlier(earliest_start(rows.drop_last()), Some(rows.last().period_start))
    }
}

/// The latest period end of some rows.
pub open spec fn latest_end(rows: Seq<BillingStatement>) -> Option<u64>
    decreases rows.len(),
{
    if rows.len() == 0 {
        None
    } else {
        later(latest_end(rows.drop_last()), Some(rows.last().period_end))
    }
}

/// The amounts of some rows.
pub open spec fn amounts_of(rows: Seq<BillingStatement>) -> Seq<i128> {
    Seq::new(rows.len(), |i: int| rows[i].amount)
}

/// How many rows a compaction run keeps.
pub open spec fn keep_threshold(s: Statements, keep_recent_override: Option<u32>) -> u32 {
    match keep_recent_override {
        Some(keep_recent) => keep_recent,
        None => retention(s),
    }
}

/// Sequence numbers of the rows that a compaction run prunes: the oldest ones, as many
/// as there are more than are kept.
pub open spec fn pruned_sequences(s: Statements, subscription_id: u32, keep: u32) -> Seq<u32> {
    let live = counted(s.live, subscription_id);
    if live <= keep {
        Seq::empty()
    } else {
        window(
            ascending(s.rows, subscription_id, 0, counted(s.next, subscription_id) as int),
            0,
            live - keep,
        )
    }
}

/// Rows without those of a subscription that have one of the given sequence numbers.
pub open spec fn without_rows(
    rows: Map<(u32, u32), BillingStatement>,
    subscription_id: u32,
    sequences: Seq<u32>,
) -> Map<(u32, u32), BillingStatement>
    decreases sequences.len(),
{
    if sequences.len() == 0 {
        rows
    } else {
        without_rows(rows, subscription_id, sequences.drop_last()).remove(
            (subscription_id, sequences.last()),
        )
    }
}

/// The aggregate once `rows`, whose amounts come to `amount`, are pruned.
pub open spec fn absorbed(
    aggregate: BillingStatementAggregate,
    rows: Seq<BillingStatement>,
    total_amount: i128,
) -> BillingStatementAggregate {
    BillingStatementAggregate {
        pruned_count: ((aggregate.pruned_count + rows.len()) % 0x1_0000_0000) as u32,
        total_amount,
        oldest_period_start: earlier(aggregate.oldest_period_start, earliest_start(rows)),
        newest_period_end: later(aggregate.newest_period_end, latest_end(rows)),
    }
}

/// What a compaction run comes to: the history after it and its summary. A run whose
/// totals leave the range of amounts is refused and leaves the history as it was.
pub open spec fn compaction(
    s: Statements,
    subscription_id: u32,
    keep: u32,
) -> (Statements, Result<BillingCompactionSummary, Error>) {
    let live = counted(s.live, subscription_id);
    let pruned = pruned_sequences(s, subscription_id, keep);
    let rows = rows_at(s.rows, subscription_id, pruned);
    let aggregate = compacted(s, subscription_id);
    if live <= keep {
        (
            s,
            Ok(
                BillingCompactionSummary {
                    subscription_id,
                    pruned_count: 0,
                    kept_count: live,
                    total_pruned_amount: 0,
                },
            ),
        )
    } else {
        match checked_total(amounts_of(rows)) {
            Err(e) => (s, Err(e)),
            Ok(amount) => match amount_of(aggregate.total_amount + amount) {
                Err(e) => (s, Err(e)),
                Ok(total) => {
                    let kept = (live - pruned.len()) as u32;
                    (
                        Statements {
                            live: s.live.insert(subscription_id, kept),
                            rows: without_rows(s.rows, subscription_id, pruned),
                            aggregates: s.aggregates.insert(
                                subscription_id,
                                absorbed(aggregate, rows, total),
                            ),
                            ..s
                        },
                        Ok(
                            BillingCompactionSummary {
                                subscription_id,
                                pruned_count: pruned.len() as u32,
                                kept_count: kept,
                                total_pruned_amount: amount,
                            },
                        ),
                    )
                },
            },
        }
    }
}

impl StatementBook {
    /// A book without statements.
    pub fn new() -> (book: StatementBook)
        ensures
            book@ == no_statements(),
    {
        StatementBook {
            next: IdMap::new(),
            live: IdMap::new(),
            rows: RowMap::new(),
            aggregates: IdMap::new(),
            keep_recent: None,
        }
    }

    fn next_sequence(&self, subscription_id: u32) -> (next: u32)
        ensures
            next == counted(self@.next, subscription_id),
    {
        match self.next.get(subscription_id) {
            Some(next) => next,
            None => 0,
        }
    }
}

fn increment(n: u32) -> (next: u32)
    ensures
        next == successor(n),
{
    if n == u32::MAX {
        0
    } else {
        n + 1
    }
}

/// Persist default retention (`keep_recent` detailed rows). Caller must enforce admin auth.
///
/// `u32::MAX` means no automatic pruning threshold (keep all detail until overridden at
/// compaction).
pub fn set_retention_config(book: &mut StatementBook, keep_recent: u32)
    ensures
        final(book)@ == (Statements { keep_recent: Some(keep_recent), ..old(book)@ }),
{
    book.keep_recent = Some(keep_recent);
}

/// The retention policy in force.
pub fn get_retention_config(book: &StatementBook) -> (config: BillingRetentionConfig)
    ensures
        config.keep_recent == retention(book@),
{
    match book.keep_recent {
        Some(keep_recent) => BillingRetentionConfig { keep_recent },
        None => BillingRetentionConfig { keep_recent: u32::MAX },
    }
}

/// What remains of a subscription's pruned rows.
pub fn get_compacted_aggregate(
    book: &StatementBook,
    subscription_id: u32,
) -> (aggregate: BillingStatementAggregate)
    ensures
        aggregate == compacted(book@, subscription_id),
{
    match book.aggregates.get(subscription_id) {
        Some(aggregate) => aggregate,
        None => BillingStatementAggregate {
            pruned_count: 0,
            total_amount: 0,
            oldest_period_start: None,
            newest_period_end: None,
        },
    }
}

/// Records a charge as the subscription's next statement.
pub fn append_statement(
    book: &mut StatementBook,
    subscription_id: u32,
    amount: i128,
    merchant: Address,
    kind: BillingChargeKind,
    period_start: u64,
    period_end: u64,
    now: u64,
)
    ensures
        final(book)@ == with_statement(
            old(book)@,
            statement_row(
                old(book)@,
                subscription_id,
                amount,
                merchant,
                kind,
                period_start,
                period_end,
                now,
            ),
        ),
{
    let next: u32 = book.next_sequence(subscription_id);
    let live: u32 = get_total_statements(book, subscription_id);
    let statement = BillingStatement {
        subscription_id,
        sequence: next,
        charged_at: now,
        period_start,
        period_end,
        amount,
        merchant,
        kind,
    };
    book.rows.set(subscription_id, next, statement);
    book.next.set(subscription_id, increment(next));
    book.live.set(subscription_id, increment(live));
}

/// Number of detailed rows held for a subscription.
pub fn get_total_statements(book: &StatementBook, subscription_id: u32) -> (total: u32)
    ensures
        total == counted(book@.live, subscription_id),
{
    match book.live.get(subscription_id) {
        Some(live) => live,
        None => 0,
    }
}

/// A window of a list that goes on with `rest` is the window of what was visited, once as
/// many items were visited as the window reaches, or nothing is left to visit.
proof fn lemma_window_is_settled<T>(
    items: Seq<T>,
    visited: Seq<T>,
    rest: Seq<T>,
    offset: int,
    limit: int,
)
    requires
        items == visited + rest,
        0 <= offset,
        0 <= limit,
        visited.len() == offset + limit || rest.len() == 0,
    ensures
        window(items, offset, limit) == window(visited, offset, limit),
{
    assert(rest.len() == 0 ==> items =~= visited);
    assert(window(items, offset, limit) =~= window(visited, offset, limit));
}

/// Visiting one more item appends it to the window unless it is skipped.
proof fn lemma_window_grows<T>(visited: Seq<T>, item: T, offset: int, limit: int)
    requires
        0 <= offset,
        visited.len() < offset + limit,
    ensures
        window(visited.push(item), offset, limit) == if visited.len() < offset {
            window(visited, offset, limit)
        } else {
            window(visited, offset, limit).push(item)
        },
{
    assert(window(visited.push(item), offset, limit) =~= if visited.len() < offset {
        window(visited, offset, limit)
    } else {
        window(visited, offset, limit).push(item)
    });
}

/// Rows and cursor of one page.
struct PageRows {
    rows: Vec<BillingStatement>,
    next_cursor: Option<u32>,
}

/// The page's rows are those with the given sequence numbers, and its cursor follows them.
spec fn holds(
    page: PageRows,
    rows: Map<(u32, u32), BillingStatement>,
    subscription_id: u32,
    sequences: Seq<u32>,
    limit: u32,
    next: u32,
    newest_first: bool,
) -> bool {
    &&& page.rows@ == rows_at(rows, subscription_id, sequences)
    &&& page.next_cursor == cursor_after(sequences, limit, next, newest_first)
}

impl StatementBook {
    /// Reads rows below `upper`, newest first, after skipping `offset` of them.
    fn collect_newest_first(
        &self,
        subscription_id: u32,
        upper: u32,
        offset: u32,
        limit: u32,
    ) -> (page: PageRows)
        requires
            limit > 0,
        ensures
            holds(
                page,
                self@.rows,
                subscription_id,
                window(
                    descending(self@.rows, subscription_id, upper as int),
                    offset as int,
                    limit as int,
                ),
                limit,
                upper,
                true,
            ),
    {
        let ghost all = descending(self@.rows, subscription_id, upper as int);
        let ghost mut visited: Seq<u32> = Seq::empty();
        let mut rows: Vec<BillingStatement> = Vec::new();
        let mut skipped: u32 = 0;
        let mut taken: u32 = 0;
        let mut seq: u32 = upper;
        assert(all =~= visited + descending(self@.rows, subscription_id, seq as int));
        assert(rows@ =~= rows_at(
            self@.rows,
            subscription_id,
            window(visited, offset as int, limit as int),
        ));
        while seq > 0
            invariant
                0 < limit,
                taken < limit,
                seq <= upper,
                skipped <= offset,
                visited.len() == skipped + taken,
                taken > 0 ==> skipped == offset,
                all == visited + descending(self@.rows, subscription_id, seq as int),
                all == descending(self@.rows, subscription_id, upper as int),
                rows@ == rows_at(
                    self@.rows,
                    subscription_id,
                    window(visited, offset as int, limit as int),
                ),
            decreases seq,
        {
            let ghost rest = descending(self@.rows, subscription_id, seq as int);
            seq = seq - 1;
            if let Some(row) = self.rows.get(subscription_id, seq) {
                proof {
                    lemma_window_grows(visited, seq, offset as int, limit as int);
                    let after = descending(self@.rows, subscription_id, seq as int);
                    assert(rest == seq![seq] + after);
                    assert(visited + rest =~= visited.push(seq) + after);
                }
                proof {
                    visited = visited.push(seq);
                }
                if skipped < offset {
                    skipped = skipped + 1;
                } else {
                    rows.push(row);
                    taken = taken + 1;
                    assert(rows@ =~= rows_at(
                        self@.rows,
                        subscription_id,
                        window(visited, offset as int, limit as int),
                    ));
                    if taken >= limit {
                        proof {
                            lemma_window_is_settled(
                                all,
                                visited,
                                descending(self@.rows, subscription_id, seq as int),
                                offset as int,
                                limit as int,
                            );
                        }
                        let next_cursor = if seq > 0 {
                            Some((seq - 1) as u32)
                        } else {
                            None
                        };
                        return PageRows { rows, next_cursor };
                    }
                }
            }
        }
        proof {
            lemma_window_is_settled(all, visited, Seq::empty(), offset as int, limit as int);
        }
        PageRows { rows, next_cursor: None }
    }

    /// Reads rows from `start` on, oldest first, after skipping `offset` of them.
    fn collect_oldest_first(
        &self,
        subscription_id: u32,
        start: u32,
        next: u32,
        offset: u32,
        limit: u32,
    ) -> (page: PageRows)
        requires
            limit > 0,
        ensures
            holds(
                page,
                self@.rows,
                subscription_id,
                window(
                    ascending(self@.rows, subscription_id, start as int, next as int),
                    offset as int,
                    limit as int,
                ),
                limit,
                next,
                false,
            ),
    {
        let ghost all = ascending(self@.rows, subscription_id, start as int, next as int);
        let ghost mut visited: Seq<u32> = Seq::empty();
        let mut rows: Vec<BillingStatement> = Vec::new();
        let mut skipped: u32 = 0;
        let mut taken: u32 = 0;
        let mut seq: u32 = start;
        assert(all =~= visited + ascending(
            self@.rows,
            subscription_id,
            seq as int,
            next as int,
        ));
        assert(rows@ =~= rows_at(
            self@.rows,
            subscription_id,
            window(visited, offset as int, limit as int),
        ));
        while seq < next
            invariant
                0 < limit,
                taken < limit,
                skipped <= offset,
                visited.len() == skipped + taken,
                taken > 0 ==> skipped == offset,
                all == visited + ascending(
                    self@.rows,
                    subscription_id,
                    seq as int,
                    next as int,
                ),
                all == ascending(self@.rows, subscription_id, start as int, next as int),
                rows@ == rows_at(
                    self@.rows,
                    subscription_id,
                    window(visited, offset as int, limit as int),
                ),
            decreases next - seq,
        {
            if let Some(row) = self.rows.get(subscription_id, seq) {
                proof {
                    lemma_window_grows(visited, seq, offset as int, limit as int);
                    let rest = ascending(self@.rows, subscription_id, seq as int, next as int);
                    let after = ascending(self@.rows, subscription_id, seq + 1, next as int);
                    assert(rest == seq![seq] + after);
                    assert(visited + rest =~= visited.push(seq) + after);
                    visited = visited.push(seq);
                }
                if skipped < offset {
                    skipped = skipped + 1;
                } else {
                    rows.push(row);
                    taken = taken + 1;
                    assert(rows@ =~= rows_at(
                        self@.rows,
                        subscription_id,
                        window(visited, offset as int, limit as int),
                    ));
                    if taken >= limit {
                        proof {
                            lemma_window_is_settled(
                                all,
                                visited,
                                ascending(self@.rows, subscription_id, seq + 1, next as int),
                                offset as int,
                                limit as int,
                            );
                        }
                        let next_cursor = if seq + 1 < next {
                            Some((seq + 1) as u32)
                        } else {
                            None
                        };
                        return PageRows { rows, next_cursor };
                    }
                }
            }
            seq = seq + 1;
        }
        proof {
            lemma_window_is_settled(all, visited, Seq::empty(), offset as int, limit as int);
        }
        PageRows { rows, next_cursor: None }
    }
}

/// Offset/limit pagination over active statements.
pub fn get_statements_by_subscription_offset(
    book: &StatementBook,
    subscription_id: u32,
    offset: u32,
    limit: u32,
    newest_first: bool,
) -> (result: Result<BillingStatementsPage, Error>)
    ensures
        match result {
            Err(e) => limit == 0 && e == Error::InvalidInput,
            Ok(page) => limit != 0 && {
                let sequences = page_by_offset(
                    book@,
                    subscription_id,
                    offset,
                    limit,
                    newest_first,
                );
                shows(
                    page,
                    book@,
                    subscription_id,
                    sequences,
                    cursor_after(
                        sequences,
                        limit,
                        counted(book@.next, subscription_id),
                        newest_first,
                    ),
                )
            },
        },
{
    if limit == 0 {
        return Err(Error::InvalidInput);
    }
    let total: u32 = get_total_statements(book, subscription_id);
    if total == 0 || offset >= total {
        let page = BillingStatementsPage { statements: Vec::new(), next_cursor: None, total };
        assert(page.statements@ =~= rows_at(book@.rows, subscription_id, Seq::empty()));
        return Ok(page);
    }
    let next: u32 = book.next_sequence(subscription_id);
    let page = if newest_first {
        book.collect_newest_first(subscription_id, next, offset, limit)
    } else {
        book.collect_oldest_first(subscription_id, 0, next, offset, limit)
    };
    Ok(BillingStatementsPage { statements: page.rows, next_cursor: page.next_cursor, total })
}

/// Cursor pagination over active statements.
pub fn get_statements_by_subscription_cursor(
    book: &StatementBook,
    subscription_id: u32,
    cursor: Option<u32>,
    limit: u32,
    newest_first: bool,
) -> (result: Result<BillingStatementsPage, Error>)
    ensures
        match result {
            Err(e) => limit == 0 && e == Error::InvalidInput,
            Ok(page) => limit != 0 && {
                let sequences = page_by_cursor(
                    book@,
                    subscription_id,
                    cursor,
                    limit,
                    newest_first,
                );
                shows(
                    page,
                    book@,
                    subscription_id,
                    sequences,
                    cursor_after(
                        sequences,
                        limit,
                        counted(book@.next, subscription_id),
                        newest_first,
                    ),
                )
            },
        },
{
    if limit == 0 {
        return Err(Error::InvalidInput);
    }
    let total: u32 = get_total_statements(book, subscription_id);
    let next: u32 = book.next_sequence(subscription_id);
    if total == 0 || next == 0 {
        let page = BillingStatementsPage { statements: Vec::new(), next_cursor: None, total };
        assert(page.statements@ =~= rows_at(book@.rows, subscription_id, Seq::empty()));
        return Ok(page);
    }
    let max_seq: u32 = next - 1;
    let start: u32 = match cursor {
        Some(c) => c,
        None => if newest_first {
            max_seq
        } else {
            0
        },
    };
    if start > max_seq {
        let page = BillingStatementsPage { statements: Vec::new(), next_cursor: None, total };
        assert(page.statements@ =~= rows_at(book@.rows, subscription_id, Seq::empty()));
        return Ok(page);
    }
    let page = if newest_first {
        book.collect_newest_first(subscription_id, start + 1, 0, limit)
    } else {
        book.collect_oldest_first(subscription_id, start, next, 0, limit)
    };
    Ok(BillingStatementsPage { statements: page.rows, next_cursor: page.next_cursor, total })
}

fn earlier_of(a: Option<u64>, b: Option<u64>) -> (time: Option<u64>)
    ensures
        time == earlier(a, b),
{
    match (a, b) {
        (Some(x), Some(y)) => Some(
            if x <= y {
                x
            } else {
                y
            },
        ),
        (None, Some(y)) => Some(y),
        (x, None) => x,
    }
}

fn later_of(a: Option<u64>, b: Option<u64>) -> (time: Option<u64>)
    ensures
        time == later(a, b),
{
    match (a, b) {
        (Some(x), Some(y)) => Some(
            if x >= y {
                x
            } else {
                y
            },
        ),
        (None, Some(y)) => Some(y),
        (x, None) => x,
    }
}

/// Rows about to be pruned: their sequence numbers and their totals.
struct Pruning {
    sequences: Vec<u32>,
    amount: i128,
    oldest: Option<u64>,
    newest: Option<u64>,
}

impl StatementBook {
    /// Finds the `target` oldest rows and adds them up.
    fn find_oldest(&self, subscription_id: u32, next: u32, target: u32) -> (result: Result<
        Pruning,
        Error,
    >)
        ensures
            ({
                let sequences = window(
                    ascending(self@.rows, subscription_id, 0, next as int),
                    0,
                    target as int,
                );
                let rows = rows_at(self@.rows, subscription_id, sequences);
                match result {
                    Err(e) => checked_total(amounts_of(rows)) == Err::<i128, Error>(e),
                    Ok(pruning) => {
                        &&& pruning.sequences@ == sequences
                        &&& checked_total(amounts_of(rows)) == Ok::<i128, Error>(pruning.amount)
                        &&& pruning.oldest == earliest_start(rows)
                        &&& pruning.newest == latest_end(rows)
                    },
                }
            }),
    {
        let ghost all = ascending(self@.rows, subscription_id, 0, next as int);
        let mut sequences: Vec<u32> = Vec::new();
        let mut amount: i128 = 0;
        let mut oldest: Option<u64> = None;
        let mut newest: Option<u64> = None;
        let mut removed: u32 = 0;
        let mut seq: u32 = 0;
        assert(all =~= sequences@ + ascending(
            self@.rows,
            subscription_id,
            seq as int,
            next as int,
        ));
        while seq < next && removed < target
            invariant
                seq <= next,
                removed == sequences@.len(),
                removed <= target,
                all == sequences@ + ascending(
                    self@.rows,
                    subscription_id,
                    seq as int,
                    next as int,
                ),
                all == ascending(self@.rows, subscription_id, 0, next as int),
                checked_total(amounts_of(rows_at(self@.rows, subscription_id, sequences@)))
                    == Ok::<i128, Error>(amount),
                oldest == earliest_start(rows_at(self@.rows, subscription_id, sequences@)),
                newest == latest_end(rows_at(self@.rows, subscription_id, sequences@)),
            decreases next - seq,
        {
            if let Some(row) = self.rows.get(subscription_id, seq) {
                let ghost rest = ascending(self@.rows, subscription_id, seq + 1, next as int);
                let ghost more = rows_at(self@.rows, subscription_id, sequences@.push(seq));
                proof {
                    assert(ascending(self@.rows, subscription_id, seq as int, next as int)
                        == seq![seq] + rest);
                    assert(sequences@ + (seq![seq] + rest) =~= sequences@.push(seq) + rest);
                    let rows = rows_at(self@.rows, subscription_id, sequences@);
                    assert(more.drop_last() =~= rows);
                    assert(amounts_of(more).drop_last() =~= amounts_of(rows));
                }
                match safe_add(amount, row.amount) {
                    Ok(total) => {
                        amount = total;
                    },
                    Err(e) => {
                        proof {
                            lemma_totals_stay_refused(
                                self@.rows,
                                subscription_id,
                                all,
                                sequences@.push(seq),
                                rest,
                                target,
                                e,
                            );
                        }
                        return Err(e);
                    },
                }
                oldest = earlier_of(oldest, Some(row.period_start));
                newest = later_of(newest, Some(row.period_end));
                sequences.push(seq);
                removed = removed + 1;
            }
            seq = seq + 1;
        }
        proof {
            lemma_window_is_settled(
                all,
                sequences@,
                ascending(self@.rows, subscription_id, seq as int, next as int),
                0,
                target as int,
            );
            assert(window(sequences@, 0, target as int) =~= sequences@);
        }
        Ok(Pruning { sequences, amount, oldest, newest })
    }
}

/// Once a total leaves the range of amounts, further amounts do not bring it back.
proof fn lemma_refused_total_extends(amounts: Seq<i128>, count: int, e: Error)
    requires
        0 <= count <= amounts.len(),
        checked_total(amounts.take(count)) == Err::<i128, Error>(e),
    ensures
        checked_total(amounts) == Err::<i128, Error>(e),
    decreases amounts.len(),
{
    if count < amounts.len() {
        assert(amounts.drop_last().take(count) =~= amounts.take(count));
        lemma_refused_total_extends(amounts.drop_last(), count, e);
    } else {
        assert(amounts.take(count) =~= amounts);
    }
}

proof fn lemma_totals_stay_refused(
    rows: Map<(u32, u32), BillingStatement>,
    subscription_id: u32,
    all: Seq<u32>,
    visited: Seq<u32>,
    rest: Seq<u32>,
    target: u32,
    e: Error,
)
    requires
        all == visited + rest,
        visited.len() <= target,
        checked_total(amounts_of(rows_at(rows, subscription_id, visited))) == Err::<i128, Error>(
            e,
        ),
    ensures
        checked_total(
            amounts_of(rows_at(rows, subscription_id, window(all, 0, target as int))),
        ) == Err::<i128, Error>(e),
{
    let amounts = amounts_of(rows_at(rows, subscription_id, window(all, 0, target as int)));
    let count = visited.len() as int;
    assert(amounts.take(count) =~= amounts_of(rows_at(rows, subscription_id, visited)));
    lemma_refused_total_extends(amounts, count, e);
}

/// Prunes a subscription's oldest rows beyond the keep threshold and keeps their totals.
/// Caller must enforce admin auth.
pub fn compact_subscription_statements(
    book: &mut StatementBook,
    subscription_id: u32,
    keep_recent_override: Option<u32>,
) -> (result: Result<BillingCompactionSummary, Error>)
    ensures
        (final(book)@, result) == compaction(
            old(book)@,
            subscription_id,
            keep_threshold(old(book)@, keep_recent_override),
        ),
{
    let keep_recent: u32 = match keep_recent_override {
        Some(keep_recent) => keep_recent,
        None => get_retention_config(book).keep_recent,
    };
    let next: u32 = book.next_sequence(subscription_id);
    let live: u32 = get_total_statements(book, subscription_id);
    if live <= keep_recent || live == 0 {
        return Ok(
            BillingCompactionSummary {
                subscription_id,
                pruned_count: 0,
                kept_count: live,
                total_pruned_amount: 0,
            },
        );
    }
    let pruning = match book.find_oldest(subscription_id, next, live - keep_recent) {
        Ok(pruning) => pruning,
        Err(e) => return Err(e),
    };
    let aggregate = get_compacted_aggregate(book, subscription_id);
    let total_amount: i128 = match safe_add(aggregate.total_amount, pruning.amount) {
        Ok(total) => total,
        Err(e) => return Err(e),
    };
    let ghost all_rows = book@.rows;
    let removed: u32 = pruning.sequences.len() as u32;
    let mut i: usize = 0;
    assert(pruning.sequences@.take(0) =~= Seq::<u32>::empty());
    while i < pruning.sequences.len()
        invariant
            i <= pruning.sequences@.len(),
            book.rows@ == without_rows(
                all_rows,
                subscription_id,
                pruning.sequences@.take(i as int),
            ),
            book.next@ == old(book)@.next,
            book.live@ == old(book)@.live,
            book.aggregates@ == old(book)@.aggregates,
            book.keep_recent == old(book)@.keep_recent,
        decreases pruning.sequences@.len() - i,
    {
        assert(pruning.sequences@.take(i + 1).drop_last() =~= pruning.sequences@.take(i as int));
        book.rows.remove(subscription_id, pruning.sequences[i]);
        i = i + 1;
    }
    assert(pruning.sequences@.take(i as int) =~= pruning.sequences@);
    book.aggregates.set(
        subscription_id,
        BillingStatementAggregate {
            pruned_count: aggregate.pruned_count.wrapping_add(removed),
            total_amount,
            oldest_period_start: earlier_of(aggregate.oldest_period_start, pruning.oldest),
            newest_period_end: later_of(aggregate.newest_period_end, pruning.newest),
        },
    );
    let kept_count: u32 = live - removed;
    book.live.set(subscription_id, kept_count);
    Ok(
        BillingCompactionSummary {
            subscription_id,
            pruned_count: removed,
            kept_count,
            total_pruned_amount: pruning.amount,
        },
    )
}

} // verus!
