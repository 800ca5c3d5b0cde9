//! No funds are created and none are lost.
use crate::charge_core::{already_processed, interval_charge, usage_charge};
use crate::events::Effect;
use crate::merchant::{
    balance_of, credited, merchant_refund_refusal, merchant_refunded, paid_out,
    payout_refusal, Merchants,
};
use crate::operation::{after, is_possible, is_refused, Moment, Operation};
use crate::oracle::charge_amount;
use crate::soundness::{
    changes_subscription, creates_subscription, is_charge, is_sound, lemma_creation,
    lemma_untouched,
};
use crate::subscription::one_off_charge;
use crate::types::{
    Address, BillingChargeKind, Bucket, Bytes32, Error, OraclePrice, Subscription,
};
use crate::vault::VaultState;
use vstd::prelude::*;

verus! {

// ── What the vault holds ─────────────────────────────────────────────────────

/// The part of an amount that is in a given token.
pub open spec fn share(amount: i128, amount_token: Address, token: Address) -> int {
    if amount_token == token {
        amount as int
    } else {
        0
    }
}

/// The prepaid balances in one token of subscriptions with an id below `end`.
pub open spec fn prepaid_below(
    subscriptions: Map<u32, Subscription>,
    token: Address,
    end: nat,
) -> int
    decreases end,
{
    if end == 0 {
        0
    } else {
        let sub = subscriptions[(end - 1) as u32];
        prepaid_below(subscriptions, token, (end - 1) as nat) + share(
            sub.prepaid_balance,
            sub.token,
            token,
        )
    }
}

/// The balances of all merchants in one token.
pub open spec fn balances_total(balances: Map<Bucket, i128>, token: Address) -> int
    decreases balances.dom().len(),
{
    if balances.dom().finite() && balances.dom().len() > 0 {
        let bucket = balances.dom().choose();
        proof {
            assert(balances.dom().contains(bucket));
        }
        share(balances[bucket], bucket.token, token) + balances_total(
            balances.remove(bucket),
            token,
        )
    } else {
        0
    }
}

/// All that the vault owes in one token: prepaid balances and merchants' balances.
pub open spec fn owed(s: VaultState, token: Address) -> int {
    prepaid_below(s.subscriptions, token, s.next_id as nat) + balances_total(
        s.merchants.balances,
        token,
    )
}

/// What a request to the ledger brings into the vault in one token.
pub open spec fn inflow(effect: Effect<Seq<u8>>, contract: Address, token: Address) -> int {
    match effect {
        Effect::Transfer(t) => (if t.to == contract {
            share(t.amount, t.token, token)
        } else {
            0
        }) - (if t.from == contract {
            share(t.amount, t.token, token)
        } else {
            0
        }),
        Effect::Publish(_) => 0,
    }
}

/// What requests to the ledger bring into the vault in one token, less what they take out.
pub open spec fn net_inflow(
    effects: Seq<Effect<Seq<u8>>>,
    contract: Address,
    token: Address,
) -> int
    decreases effects.len(),
{
    if effects.len() == 0 {
        0
    } else {
        net_inflow(effects.drop_last(), contract, token) + inflow(
            effects.last(),
            contract,
            token,
        )
    }
}

/// Tokens move between the vault and others, not from the vault to itself.
pub open spec fn deals_with_others(m: Moment, op: Operation) -> bool {
    match op {
        Operation::DepositFunds { subscriber, .. } => subscriber != m.contract,
        Operation::WithdrawSubscriberFunds { subscriber, .. } => subscriber != m.contract,
        Operation::PartialRefund { subscriber, .. } => subscriber != m.contract,
        Operation::WithdrawMerchantFunds { merchant, .. } => merchant != m.contract,
        Operation::MerchantRefund { subscriber, .. } => subscriber != m.contract,
        _ => true,
    }
}

// ── Sums ─────────────────────────────────────────────────────────────────────

proof fn lemma_same_prepaid(
    a: Map<u32, Subscription>,
    b: Map<u32, Subscription>,
    token: Address,
    end: nat,
)
    requires
        end <= u32::MAX,
        forall|id: u32|
            #![trigger b[id]]
            id < end ==> a[id].prepaid_balance == b[id].prepaid_balance && a[id].token
                == b[id].token,
    ensures
        prepaid_below(a, token, end) == prepaid_below(b, token, end),
    decreases end,
{
    if end > 0 {
        lemma_same_prepaid(a, b, token, (end - 1) as nat);
        let id = (end - 1) as u32;
        assert(a[id].prepaid_balance == b[id].prepaid_balance);
    }
}

/// Changing one subscription's balance changes the sum by the difference.
proof fn lemma_changed_prepaid(
    subscriptions: Map<u32, Subscription>,
    id: u32,
    sub: Subscription,
    token: Address,
    end: nat,
)
    requires
        id < end <= u32::MAX,
        sub.token == subscriptions[id].token,
    ensures
        prepaid_below(subscriptions.insert(id, sub), token, end) == prepaid_below(
            subscriptions,
            token,
            end,
        ) - share(subscriptions[id].prepaid_balance, sub.token, token) + share(
            sub.prepaid_balance,
            sub.token,
            token,
        ),
    decreases end,
{
    let changed = subscriptions.insert(id, sub);
    if id == end - 1 {
        lemma_same_prepaid(changed, subscriptions, token, (end - 1) as nat);
    } else {
        lemma_changed_prepaid(subscriptions, id, sub, token, (end - 1) as nat);
        assert(changed[(end - 1) as u32] == subscriptions[(end - 1) as u32]);
    }
}

/// Any bucket can be taken out of the sum first.
proof fn lemma_total_splits(balances: Map<Bucket, i128>, bucket: Bucket, token: Address)
    requires
        balances.dom().finite(),
        balances.contains_key(bucket),
    ensures
        balances_total(balances, token) == share(balances[bucket], bucket.token, token)
            + balances_total(balances.remove(bucket), token),
    decreases balances.dom().len(),
{
    let first = balances.dom().choose();
    assert(balances.dom().len() > 0) by {
        if balances.dom().len() == 0 {
            assert(balances.dom() =~= Set::empty());
        }
    }
    assert(balances.dom().contains(first));
    if first != bucket {
        let without_first = balances.remove(first);
        let without_bucket = balances.remove(bucket);
        lemma_total_splits(without_first, bucket, token);
        lemma_total_splits(without_bucket, first, token);
        assert(without_first.remove(bucket) =~= without_bucket.remove(first));
    }
}

/// Setting one bucket changes the sum by the difference.
proof fn lemma_total_changes(m: Merchants, bucket: Bucket, balance: i128, token: Address)
    requires
        m.balances.dom().finite(),
    ensures
        balances_total(m.balances.insert(bucket, balance), token) == balances_total(
            m.balances,
            token,
        ) - share(balance_of(m, bucket), bucket.token, token) + share(
            balance,
            bucket.token,
            token,
        ),
{
    let changed = m.balances.insert(bucket, balance);
    lemma_total_splits(changed, bucket, token);
    if m.balances.contains_key(bucket) {
        lemma_total_splits(m.balances, bucket, token);
        assert(changed.remove(bucket) =~= m.balances.remove(bucket));
    } else {
        assert(changed.remove(bucket) =~= m.balances);
    }
}

proof fn lemma_inflow_of_one(
    effects: Seq<Effect<Seq<u8>>>,
    effect: Effect<Seq<u8>>,
    contract: Address,
    token: Address,
)
    ensures
        net_inflow(effects.push(effect), contract, token) == net_inflow(
            effects,
            contract,
            token,
        ) + inflow(effect, contract, token),
{
    assert(effects.push(effect).drop_last() =~= effects);
}

/// One or two requests, whose outcome is known, were added.
proof fn lemma_inflow_of_two(
    effects: Seq<Effect<Seq<u8>>>,
    first: Effect<Seq<u8>>,
    second: Effect<Seq<u8>>,
    contract: Address,
    token: Address,
)
    ensures
        net_inflow(effects.push(first).push(second), contract, token) == net_inflow(
            effects,
            contract,
            token,
        ) + inflow(first, contract, token) + inflow(second, contract, token),
{
    lemma_inflow_of_one(effects, first, contract, token);
    lemma_inflow_of_one(effects.push(first), second, contract, token);
}

// ── Charges ──────────────────────────────────────────────────────────────────

/// A charge that went through: `amount` left the subscription's prepaid balance and reached
/// the merchant's balance in the subscription's token, and was counted as charged. No other
/// subscription and no other merchant's or token's balance changed.
pub open spec fn moves_exactly(s: VaultState, t: VaultState, id: u32, amount: int) -> bool {
    let sub = s.subscriptions[id];
    let bucket = Bucket { holder: sub.merchant, token: sub.token };
    &&& t.subscriptions == s.subscriptions.insert(id, t.subscriptions[id])
    &&& t.subscriptions[id].prepaid_balance == sub.prepaid_balance - amount
    &&& t.subscriptions[id].lifetime_charged == sub.lifetime_charged + amount
    &&& balance_of(t.merchants, bucket) == balance_of(s.merchants, bucket) + amount
    &&& forall|other: Bucket|
        other != bucket ==> #[trigger] balance_of(t.merchants, other) == balance_of(
            s.merchants,
            other,
        )
}

/// A charge that did not go through: no balance, no charged total and no time of payment
/// changed, and no statement was written.
pub open spec fn moves_nothing(s: VaultState, t: VaultState) -> bool {
    &&& t.merchants == s.merchants
    &&& t.statements == s.statements
    &&& t.marks == s.marks
    &&& t.usage == s.usage
    &&& forall|id: u32| #[trigger]
        t.subscriptions.contains_key(id) <==> s.subscriptions.contains_key(id)
    &&& forall|id: u32|
        #![trigger t.subscriptions[id]]
        s.subscriptions.contains_key(id) ==> (Subscription {
            status: s.subscriptions[id].status,
            ..t.subscriptions[id]
        }) == s.subscriptions[id]
}

/// An interval charge that succeeds moves exactly the interval's amount from the prepaid
/// balance to the merchant, unless its idempotency key was processed before, when it
/// changes nothing. One that fails moves nothing.
pub proof fn interval_charge_moves_exact_amount(
    s: VaultState,
    id: u32,
    now: u64,
    key: Option<Bytes32>,
    quote: OraclePrice,
)
    ensures
        ({
            let (t, outcome) = interval_charge(s, id, now, key, quote);
            match outcome {
                Ok(_) => if already_processed(s, id, key) {
                    t == s
                } else {
                    &&& s.subscriptions.contains_key(id)
                    &&& charge_amount(s, s.subscriptions[id], quote, now) is Ok
                    &&& moves_exactly(
                        s,
                        t,
                        id,
                        charge_amount(s, s.subscriptions[id], quote, now)->Ok_0 as int,
                    )
                },
                Err(_) => moves_nothing(s, t),
            }
        }),
{
}

/// A usage charge that succeeds moves exactly the usage amount from the prepaid balance to
/// the merchant. One that fails moves nothing.
pub proof fn usage_charge_moves_exact_amount(
    s: VaultState,
    id: u32,
    amount: i128,
    reference: Seq<u8>,
    now: u64,
)
    ensures
        ({
            let (t, outcome) = usage_charge(s, id, amount, reference, now);
            match outcome {
                Ok(_) => s.subscriptions.contains_key(id) && moves_exactly(
                    s,
                    t,
                    id,
                    amount as int,
                ),
                Err(_) => moves_nothing(s, t),
            }
        }),
{
}

/// A one-off charge that succeeds moves exactly its amount from the prepaid balance to the
/// merchant. One that fails changes nothing.
pub proof fn one_off_charge_moves_exact_amount(
    s: VaultState,
    id: u32,
    merchant: Address,
    amount: i128,
    now: u64,
)
    ensures
        ({
            let (t, outcome) = one_off_charge(s, id, merchant, amount, now);
            match outcome {
                Ok(_) => s.subscriptions.contains_key(id) && moves_exactly(
                    s,
                    t,
                    id,
                    amount as int,
                ),
                Err(_) => t == s,
            }
        }),
{
}

/// Charges ask for no transfers.
proof fn lemma_charges_transfer_nothing(s: VaultState, m: Moment, op: Operation, token: Address)
    requires
        is_charge(op),
    ensures
        net_inflow(after(s, m, op).outbox, m.contract, token) == net_inflow(
            s.outbox,
            m.contract,
            token,
        ),
{
    let t = after(s, m, op);
    assert(t.outbox == s.outbox || exists|a: Effect<Seq<u8>>|
        a is Publish && t.outbox == #[trigger] s.outbox.push(a) || exists|
        a: Effect<Seq<u8>>,
        b: Effect<Seq<u8>>,
    |
        a is Publish && b is Publish && t.outbox == #[trigger] s.outbox.push(a).push(b));
    if t.outbox != s.outbox {
        if exists|a: Effect<Seq<u8>>| a is Publish && t.outbox == #[trigger] s.outbox.push(a) {
            let a = choose|a: Effect<Seq<u8>>|
                a is Publish && t.outbox == #[trigger] s.outbox.push(a);
            lemma_inflow_of_one(s.outbox, a, m.contract, token);
        } else {
            let (a, b) = choose|a: Effect<Seq<u8>>, b: Effect<Seq<u8>>|
                a is Publish && b is Publish && t.outbox == #[trigger] s.outbox.push(a).push(b);
            lemma_inflow_of_two(s.outbox, a, b, m.contract, token);
        }
    }
}

// ── Merchants ────────────────────────────────────────────────────────────────

/// A merchant's withdrawal or refund takes exactly its amount out of the merchant's balance
/// in that token, and out of no other merchant's or token's balance.
pub proof fn payouts_debit_exactly_one_bucket(
    s: VaultState,
    merchant: Address,
    subscriber: Address,
    token: Address,
    amount: i128,
    custody: i128,
    contract: Address,
    other: Bucket,
)
    ensures
        ({
            let bucket = Bucket { holder: merchant, token };
            let before = balance_of(s.merchants, bucket);
            let t = paid_out(s, merchant, token, amount, contract);
            payout_refusal(s, merchant, token, amount, custody) is None ==> {
                &&& balance_of(t.merchants, bucket) == before - amount
                &&& 0 < amount <= before
                &&& other != bucket ==> balance_of(t.merchants, other) == balance_of(
                    s.merchants,
                    other,
                )
            }
        }),
        ({
            let bucket = Bucket { holder: merchant, token };
            let before = balance_of(s.merchants, bucket);
            let t = merchant_refunded(s, merchant, subscriber, token, amount, contract);
            merchant_refund_refusal(s, merchant, token, amount) is None ==> {
                &&& balance_of(t.merchants, bucket) == before - amount
                &&& 0 < amount <= before
                &&& other != bucket ==> balance_of(t.merchants, other) == balance_of(
                    s.merchants,
                    other,
                )
            }
        }),
{
}

// ── Conservation ─────────────────────────────────────────────────────────────

/// Operations that move no funds: no balance changes and no transfer is asked for.
proof fn lemma_idle_operations(s: VaultState, m: Moment, op: Operation, token: Address)
    requires
        is_sound(s),
        is_possible(s, op),
        !moves_funds(op),
    ensures
        owed(after(s, m, op), token) == owed(s, token),
        net_inflow(after(s, m, op).outbox, m.contract, token) == net_inflow(
            s.outbox,
            m.contract,
            token,
        ),
{
    let t = after(s, m, op);
    lemma_untouched(s, m, op);
    if creates_subscription(op) {
        lemma_creation(s, m, op);
        lemma_new_balance_is_empty(s, m, op);
        lemma_same_prepaid(t.subscriptions, s.subscriptions, token, s.next_id as nat);
    } else {
        if changes_subscription(op) {
            lemma_idle_changes(s, m, op);
        }
        lemma_same_prepaid(t.subscriptions, s.subscriptions, token, s.next_id as nat);
    }
    lemma_idle_outbox(s, m, op, token);
}

/// Whether an operation moves funds.
spec fn moves_funds(op: Operation) -> bool {
    is_charge(op) || op is DepositFunds || op is WithdrawSubscriberFunds || op is PartialRefund
        || op is WithdrawMerchantFunds || op is MerchantRefund
}

proof fn lemma_new_balance_is_empty(s: VaultState, m: Moment, op: Operation)
    requires
        creates_subscription(op),
    ensures
        after(s, m, op) == s || after(s, m, op).subscriptions[s.next_id].prepaid_balance == 0,
{
}

proof fn lemma_idle_changes(s: VaultState, m: Moment, op: Operation)
    requires
        changes_subscription(op),
        !moves_funds(op),
        is_sound(s),
    ensures
        forall|id: u32|
            #![trigger after(s, m, op).subscriptions[id]]
            id < s.next_id ==> {
                let a = s.subscriptions[id];
                let b = after(s, m, op).subscriptions[id];
                a.prepaid_balance == b.prepaid_balance && a.token == b.token
            },
{
    reveal(is_refused);
}

proof fn lemma_idle_outbox(s: VaultState, m: Moment, op: Operation, token: Address)
    requires
        !moves_funds(op),
    ensures
        net_inflow(after(s, m, op).outbox, m.contract, token) == net_inflow(
            s.outbox,
            m.contract,
            token,
        ),
{
    let t = after(s, m, op);
    assert(t.outbox == s.outbox || exists|a: Effect<Seq<u8>>|
        a is Publish && t.outbox == #[trigger] s.outbox.push(a));
    if t.outbox != s.outbox {
        let a = choose|a: Effect<Seq<u8>>|
            a is Publish && t.outbox == #[trigger] s.outbox.push(a);
        lemma_inflow_of_one(s.outbox, a, m.contract, token);
    }
}

/// Moving an amount inside the vault leaves what it owes unchanged.
proof fn lemma_exact_moves_conserve(
    s: VaultState,
    t: VaultState,
    id: u32,
    amount: i128,
    kind: BillingChargeKind,
    token: Address,
)
    requires
        is_sound(s),
        s.subscriptions.contains_key(id),
        t.next_id == s.next_id,
        t.subscriptions == s.subscriptions.insert(id, t.subscriptions[id]),
        t.subscriptions[id].token == s.subscriptions[id].token,
        t.subscriptions[id].prepaid_balance == s.subscriptions[id].prepaid_balance - amount,
        credited(
            s.merchants,
            Bucket { holder: s.subscriptions[id].merchant, token: s.subscriptions[id].token },
            amount,
            kind,
        ) == Ok::<Merchants, Error>(t.merchants),
    ensures
        owed(t, token) == owed(s, token),
{
    let sub = s.subscriptions[id];
    let bucket = Bucket { holder: sub.merchant, token: sub.token };
    assert(id < s.next_id);
    lemma_changed_prepaid(
        s.subscriptions,
        id,
        t.subscriptions[id],
        token,
        s.next_id as nat,
    );
    lemma_total_changes(s.merchants, bucket, t.merchants.balances[bucket], token);
}

proof fn lemma_interval_charge_conserves(
    s: VaultState,
    id: u32,
    now: u64,
    key: Option<Bytes32>,
    quote: OraclePrice,
    token: Address,
)
    requires
        is_sound(s),
    ensures
        owed(interval_charge(s, id, now, key, quote).0, token) == owed(s, token),
{
    let (t, outcome) = interval_charge(s, id, now, key, quote);
    if s.subscriptions.contains_key(id) {
        assert(id < s.next_id);
        let sub = s.subscriptions[id];
        if t != s {
            let amount = charge_amount(s, sub, quote, now)->Ok_0;
            if outcome is Ok {
                lemma_exact_moves_conserve(
                    s,
                    t,
                    id,
                    amount,
                    BillingChargeKind::Interval,
                    token,
                );
            } else {
                interval_charge_moves_exact_amount(s, id, now, key, quote);
                lemma_same_prepaid(t.subscriptions, s.subscriptions, token, s.next_id as nat);
            }
        }
    }
}

proof fn lemma_usage_charge_conserves(
    s: VaultState,
    id: u32,
    amount: i128,
    reference: Seq<u8>,
    now: u64,
    token: Address,
)
    requires
        is_sound(s),
    ensures
        owed(usage_charge(s, id, amount, reference, now).0, token) == owed(s, token),
{
    let (t, outcome) = usage_charge(s, id, amount, reference, now);
    if s.subscriptions.contains_key(id) {
        assert(id < s.next_id);
        if t != s {
            if outcome is Ok {
                lemma_exact_moves_conserve(s, t, id, amount, BillingChargeKind::Usage, token);
            } else {
                usage_charge_moves_exact_amount(s, id, amount, reference, now);
                lemma_same_prepaid(t.subscriptions, s.subscriptions, token, s.next_id as nat);
            }
        }
    }
}

/// No operation creates funds or loses any: what the vault owes, in any token, changes by
/// exactly what the transfers that the operation asks for bring in, less what they take
/// out. A charge, which asks for none, leaves it unchanged.
pub proof fn every_operation_conserves_funds(
    s: VaultState,
    m: Moment,
    op: Operation,
    token: Address,
)
    requires
        is_sound(s),
        is_possible(s, op),
        deals_with_others(m, op),
    ensures
        owed(after(s, m, op), token) - owed(s, token) == net_inflow(
            after(s, m, op).outbox,
            m.contract,
            token,
        ) - net_inflow(s.outbox, m.contract, token),
{
    let t = after(s, m, op);
    if !moves_funds(op) {
        lemma_idle_operations(s, m, op, token);
    } else if is_charge(op) {
        lemma_charges_transfer_nothing(s, m, op, token);
        match op {
            Operation::ChargeOneOff { subscription_id, merchant, amount } => {
                reveal(is_refused);
                if one_off_charge(s, subscription_id, merchant, amount, m.now).1 is Ok {
                    lemma_exact_moves_conserve(
                        s,
                        t,
                        subscription_id,
                        amount,
                        BillingChargeKind::OneOff,
                        token,
                    );
                }
            },
            Operation::ChargeInterval { subscription_id, idempotency_key, quote } => {
                lemma_interval_charge_conserves(
                    s,
                    subscription_id,
                    m.now,
                    idempotency_key,
                    quote,
                    token,
                );
            },
            Operation::ChargeUsage { subscription_id, usage_amount, reference } => {
                lemma_usage_charge_conserves(
                    s,
                    subscription_id,
                    usage_amount,
                    reference,
                    m.now,
                    token,
                );
            },
            _ => {},
        }
    } else {
        lemma_transfers_conserve(s, m, op, token);
    }
}

proof fn lemma_transfers_conserve(s: VaultState, m: Moment, op: Operation, token: Address)
    requires
        is_sound(s),
        is_possible(s, op),
        deals_with_others(m, op),
        moves_funds(op),
        !is_charge(op),
    ensures
        owed(after(s, m, op), token) - owed(s, token) == net_inflow(
            after(s, m, op).outbox,
            m.contract,
            token,
        ) - net_inflow(s.outbox, m.contract, token),
{
    reveal(is_refused);
    let t = after(s, m, op);
    match op {
        Operation::DepositFunds { subscription_id, subscriber, amount } => {
            if !is_refused(s, m, op) {
                lemma_paid_in_or_out(s, t, subscription_id, m, token);
            }
        },
        Operation::WithdrawSubscriberFunds { subscription_id, subscriber } => {
            if !is_refused(s, m, op) && t != s {
                let sub = s.subscriptions[subscription_id];
                assert(subscription_id < s.next_id);
                lemma_changed_prepaid(
                    s.subscriptions,
                    subscription_id,
                    t.subscriptions[subscription_id],
                    token,
                    s.next_id as nat,
                );
                lemma_inflow_of_one(s.outbox, t.outbox.last(), m.contract, token);
                assert(t.outbox =~= s.outbox.push(t.outbox.last()));
            }
        },
        Operation::PartialRefund { admin, subscription_id, subscriber, amount } => {
            if !is_refused(s, m, op) {
                lemma_paid_in_or_out(s, t, subscription_id, m, token);
            }
        },
        Operation::WithdrawMerchantFunds { merchant, token: paid_token, amount, custody } => {
            if !is_refused(s, m, op) {
                let bucket = Bucket { holder: merchant, token: paid_token };
                lemma_total_changes(
                    s.merchants,
                    bucket,
                    t.merchants.balances[bucket],
                    token,
                );
                lemma_two_effects(s, t, m, token);
            }
        },
        Operation::MerchantRefund { merchant, subscriber, token: paid_token, amount } => {
            if !is_refused(s, m, op) {
                let bucket = Bucket { holder: merchant, token: paid_token };
                lemma_total_changes(
                    s.merchants,
                    bucket,
                    t.merchants.balances[bucket],
                    token,
                );
                lemma_two_effects(s, t, m, token);
            }
        },
        _ => {},
    }
}

/// Two requests were added, of which one is a transfer.
proof fn lemma_two_effects(s: VaultState, t: VaultState, m: Moment, token: Address)
    requires
        t.outbox.len() == s.outbox.len() + 2,
        s.outbox.is_prefix_of(t.outbox),
    ensures
        net_inflow(t.outbox, m.contract, token) == net_inflow(s.outbox, m.contract, token)
            + inflow(t.outbox[s.outbox.len() as int], m.contract, token) + inflow(
            t.outbox[s.outbox.len() as int + 1],
            m.contract,
            token,
        ),
{
    let n = s.outbox.len() as int;
    assert(t.outbox =~= s.outbox.push(t.outbox[n]).push(t.outbox[n + 1]));
    lemma_inflow_of_two(s.outbox, t.outbox[n], t.outbox[n + 1], m.contract, token);
}

/// One prepaid balance changed and two requests were added.
proof fn lemma_paid_in_or_out(
    s: VaultState,
    t: VaultState,
    id: u32,
    m: Moment,
    token: Address,
)
    requires
        is_sound(s),
        s.subscriptions.contains_key(id),
        t.next_id == s.next_id,
        t.merchants == s.merchants,
        t.subscriptions == s.subscriptions.insert(id, t.subscriptions[id]),
        t.subscriptions[id].token == s.subscriptions[id].token,
        t.outbox.len() == s.outbox.len() + 2,
        s.outbox.is_prefix_of(t.outbox),
    ensures
        owed(t, token) - owed(s, token) == share(
            t.subscriptions[id].prepaid_balance,
            s.subscriptions[id].token,
            token,
        ) - share(s.subscriptions[id].prepaid_balance, s.subscriptions[id].token, token),
        net_inflow(t.outbox, m.contract, token) == net_inflow(s.outbox, m.contract, token)
            + inflow(t.outbox[s.outbox.len() as int], m.contract, token) + inflow(
            t.outbox[s.outbox.len() as int + 1],
            m.contract,
            token,
        ),
{
    assert(id < s.next_id);
    lemma_changed_prepaid(
        s.subscriptions,
        id,
        t.subscriptions[id],
        token,
        s.next_id as nat,
    );
    lemma_two_effects(s, t, m, token);
}

} // verus!
