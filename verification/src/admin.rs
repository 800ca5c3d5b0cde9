//! Admin and config: initialization, minimum top-up, admin rotation, accepted tokens,
//! stranded funds recovery, batch charge.
use crate::charge_core::{charge_one, has_period, interval_charge};
use crate::events::{AdminRotatedEvent, Effect, Event, RecoveryEvent};
use crate::types::{
    AcceptedToken, Address, BatchChargeResult, Call, Error, OraclePrice, RecoveryReason,
};
use crate::vault::{Config, SubscriptionVault, VaultState};
use vstd::prelude::*;

verus! {

/// Where a token stands in the registry of accepted tokens.
pub open spec fn position_of(tokens: Seq<AcceptedToken>, token: Address) -> Option<int>
    decreases tokens.len(),
{
    if tokens.len() == 0 {
        None
    } else {
        match position_of(tokens.drop_last(), token) {
            Some(i) => Some(i),
            None => if tokens.last().token == token {
                Some(tokens.len() - 1)
            } else {
                None
            },
        }
    }
}

/// Whether the vault settles in a token.
pub open spec fn is_accepted(s: VaultState, token: Address) -> bool {
    position_of(s.tokens, token) is Some
}

/// The decimals of an accepted token.
pub open spec fn decimals_of(tokens: Seq<AcceptedToken>, token: Address) -> Option<u32> {
    match position_of(tokens, token) {
        Some(i) => Some(tokens[i].decimals),
        None => None,
    }
}

/// The registry with a token accepted: a known token keeps its place, a new one comes
/// last.
pub open spec fn accepting(
    tokens: Seq<AcceptedToken>,
    token: Address,
    decimals: u32,
) -> Seq<AcceptedToken> {
    match position_of(tokens, token) {
        Some(i) => tokens.update(i, AcceptedToken { token, decimals }),
        None => tokens.push(AcceptedToken { token, decimals }),
    }
}

/// Why an operation reserved for the admin is refused to `admin`.
pub open spec fn admin_refusal(s: VaultState, admin: Address) -> Option<Error> {
    match s.config.admin {
        None => Some(Error::NotInitialized),
        Some(stored) => if admin == stored {
            None
        } else {
            Some(Error::Unauthorized)
        },
    }
}

/// A setting that the initialization makes.
pub open spec fn initialized<T>(setting: Option<T>) -> Result<T, Error> {
    match setting {
        Some(value) => Ok(value),
        None => Err(Error::NotInitialized),
    }
}

/// The state after the initialization.
pub open spec fn initialized_with(
    s: VaultState,
    token: Address,
    token_decimals: u32,
    admin: Address,
    min_topup: i128,
    grace_period: u64,
) -> VaultState {
    VaultState {
        config: Config {
            token: Some(token),
            admin: Some(admin),
            min_topup: Some(min_topup),
            grace_period: Some(grace_period),
            ..s.config
        },
        tokens: accepting(s.tokens, token, token_decimals),
        ..s
    }
}

/// Where a token stands in the registry.
fn find_token(tokens: &Vec<AcceptedToken>, token: &Address) -> (position: Option<usize>)
    ensures
        match position {
            Some(i) => i < tokens@.len() && position_of(tokens@, *token) == Some(i as int),
            None => position_of(tokens@, *token) is None,
        },
{
    let mut i: usize = 0;
    assert(tokens@.take(0) =~= Seq::<AcceptedToken>::empty());
    while i < tokens.len()
        invariant
            i <= tokens@.len(),
            position_of(tokens@.take(i as int), *token) is None,
        decreases tokens@.len() - i,
    {
        assert(tokens@.take(i + 1).drop_last() =~= tokens@.take(i as int));
        if tokens[i].token == *token {
            proof {
                lemma_position_holds(tokens@, i + 1, *token);
            }
            return Some(i);
        }
        i = i + 1;
    }
    assert(tokens@.take(i as int) =~= tokens@);
    None
}

/// A token found among the first tokens stands there among all of them.
proof fn lemma_position_holds(tokens: Seq<AcceptedToken>, count: int, token: Address)
    requires
        0 <= count <= tokens.len(),
        position_of(tokens.take(count), token) is Some,
    ensures
        position_of(tokens, token) == position_of(tokens.take(count), token),
    decreases tokens.len(),
{
    if count < tokens.len() {
        assert(tokens.drop_last().take(count) =~= tokens.take(count));
        lemma_position_holds(tokens.drop_last(), count, token);
    } else {
        assert(tokens.take(count) =~= tokens);
    }
}

fn accept_token(tokens: &mut Vec<AcceptedToken>, token: Address, decimals: u32)
    ensures
        final(tokens)@ == accepting(old(tokens)@, token, decimals),
{
    match find_token(tokens, &token) {
        Some(i) => {
            tokens.set(i, AcceptedToken { token, decimals });
        },
        None => {
            tokens.push(AcceptedToken { token, decimals });
        },
    }
}

/// The default settlement token.
pub fn get_token(vault: &SubscriptionVault) -> (token: Result<Address, Error>)
    ensures
        token == initialized(vault@.config.token),
{
    match vault.config.token {
        Some(token) => Ok(token),
        None => Err(Error::NotInitialized),
    }
}

/// Whether the vault settles in a token.
pub fn is_token_accepted(vault: &SubscriptionVault, token: &Address) -> (accepted: bool)
    ensures
        accepted == is_accepted(vault@, *token),
{
    find_token(&vault.tokens, token).is_some()
}

/// The decimals of an accepted token.
pub fn get_token_decimals(vault: &SubscriptionVault, token: &Address) -> (decimals: Option<u32>)
    ensures
        decimals == decimals_of(vault@.tokens, *token),
{
    match find_token(&vault.tokens, token) {
        Some(i) => Some(vault.tokens[i].decimals),
        None => None,
    }
}

/// The stored admin.
pub fn require_admin(vault: &SubscriptionVault) -> (admin: Result<Address, Error>)
    ensures
        admin == initialized(vault@.config.admin),
{
    match vault.config.admin {
        Some(admin) => Ok(admin),
        None => Err(Error::NotInitialized),
    }
}

/// Lets only the stored admin, who has signed, pass.
pub fn require_admin_auth(
    vault: &SubscriptionVault,
    call: &Call,
    admin: &Address,
) -> (result: Result<(), Error>)
    requires
        call.signed_by(*admin),
    ensures
        match admin_refusal(vault@, *admin) {
            Some(e) => result == Err::<(), Error>(e),
            None => result == Ok::<(), Error>(()),
        },
{
    match require_admin(vault) {
        Err(e) => Err(e),
        Ok(stored) => if *admin != stored {
            Err(Error::Unauthorized)
        } else {
            Ok(())
        },
    }
}

/// Initialize the vault: set token address, admin, minimum top-up, and grace period.
pub fn do_init(
    vault: &mut SubscriptionVault,
    token: Address,
    token_decimals: u32,
    admin: Address,
    min_topup: i128,
    grace_period: u64,
) -> (result: Result<(), Error>)
    ensures
        if old(vault)@.config.token is Some || old(vault)@.config.admin is Some {
            result == Err::<(), Error>(Error::AlreadyInitialized) && final(vault)@ == old(vault)@
        } else {
            result == Ok::<(), Error>(()) && final(vault)@ == initialized_with(
                old(vault)@,
                token,
                token_decimals,
                admin,
                min_topup,
                grace_period,
            )
        },
{
    if vault.config.token.is_some() || vault.config.admin.is_some() {
        return Err(Error::AlreadyInitialized);
    }
    vault.config.token = Some(token);
    vault.config.admin = Some(admin);
    vault.config.min_topup = Some(min_topup);
    vault.config.grace_period = Some(grace_period);
    accept_token(&mut vault.tokens, token, token_decimals);
    Ok(())
}

/// Update the minimum top-up threshold. Only the admin may.
pub fn do_set_min_topup(
    vault: &mut SubscriptionVault,
    call: &Call,
    admin: Address,
    min_topup: i128,
) -> (result: Result<(), Error>)
    requires
        call.signed_by(admin),
    ensures
        match admin_refusal(old(vault)@, admin) {
            Some(e) => result == Err::<(), Error>(e) && final(vault)@ == old(vault)@,
            None => result == Ok::<(), Error>(()) && final(vault)@ == (VaultState {
                config: Config { min_topup: Some(min_topup), ..old(vault)@.config },
                ..old(vault)@
            }),
        },
{
    match require_admin_auth(vault, call, &admin) {
        Err(e) => return Err(e),
        Ok(()) => {},
    }
    vault.config.min_topup = Some(min_topup);
    Ok(())
}

/// Get the current minimum top-up threshold.
pub fn get_min_topup(vault: &SubscriptionVault) -> (min_topup: Result<i128, Error>)
    ensures
        min_topup == initialized(vault@.config.min_topup),
{
    match vault.config.min_topup {
        Some(min_topup) => Ok(min_topup),
        None => Err(Error::NotInitialized),
    }
}

/// Get the grace period.
pub fn get_grace_period(vault: &SubscriptionVault) -> (grace_period: Result<u64, Error>)
    ensures
        grace_period == initialized(vault@.config.grace_period),
{
    match vault.config.grace_period {
        Some(grace_period) => Ok(grace_period),
        None => Err(Error::NotInitialized),
    }
}

/// Get the current admin address.
pub fn do_get_admin(vault: &SubscriptionVault) -> (admin: Result<Address, Error>)
    ensures
        admin == initialized(vault@.config.admin),
{
    require_admin(vault)
}

/// The state after the admin role has moved.
pub open spec fn rotated(
    s: VaultState,
    current_admin: Address,
    new_admin: Address,
    now: u64,
) -> VaultState {
    VaultState {
        config: Config { admin: Some(new_admin), ..s.config },
        outbox: s.outbox.push(
            Effect::Publish(
                Event::AdminRotated(
                    AdminRotatedEvent { old_admin: current_admin, new_admin, timestamp: now },
                ),
            ),
        ),
        ..s
    }
}

/// Rotate admin to a new address. Only the current admin may.
pub fn do_rotate_admin(
    vault: &mut SubscriptionVault,
    call: &Call,
    current_admin: Address,
    new_admin: Address,
) -> (result: Result<(), Error>)
    requires
        call.signed_by(current_admin),
    ensures
        match admin_refusal(old(vault)@, current_admin) {
            Some(e) => result == Err::<(), Error>(e) && final(vault)@ == old(vault)@,
            None => result == Ok::<(), Error>(()) && final(vault)@ == rotated(
                old(vault)@,
                current_admin,
                new_admin,
                call.now,
            ),
        },
{
    match require_admin_auth(vault, call, &current_admin) {
        Err(e) => return Err(e),
        Ok(()) => {},
    }
    vault.config.admin = Some(new_admin);
    vault.outbox.publish(
        Event::AdminRotated(
            AdminRotatedEvent { old_admin: current_admin, new_admin, timestamp: call.now },
        ),
    );
    Ok(())
}

/// Why a recovery of stranded funds is refused.
pub open spec fn recovery_refusal(s: VaultState, admin: Address, amount: i128) -> Option<Error> {
    match admin_refusal(s, admin) {
        Some(e) => Some(e),
        None => if amount <= 0 {
            Some(Error::InvalidRecoveryAmount)
        } else {
            None
        },
    }
}

/// The state after a recovery of stranded funds was recorded.
pub open spec fn recovered(
    s: VaultState,
    admin: Address,
    recipient: Address,
    amount: i128,
    reason: RecoveryReason,
    now: u64,
) -> VaultState {
    VaultState {
        outbox: s.outbox.push(
            Effect::Publish(
                Event::Recovery(
                    RecoveryEvent { admin, recipient, amount, reason, timestamp: now },
                ),
            ),
        ),
        ..s
    }
}

/// Record the recovery of stranded funds. Admin only. The record moves no tokens.
pub fn do_recover_stranded_funds(
    vault: &mut SubscriptionVault,
    call: &Call,
    admin: Address,
    recipient: Address,
    amount: i128,
    reason: RecoveryReason,
) -> (result: Result<(), Error>)
    requires
        call.signed_by(admin),
    ensures
        match recovery_refusal(old(vault)@, admin, amount) {
            Some(e) => result == Err::<(), Error>(e) && final(vault)@ == old(vault)@,
            None => result == Ok::<(), Error>(()) && final(vault)@ == recovered(
                old(vault)@,
                admin,
                recipient,
                amount,
                reason,
                call.now,
            ),
        },
{
    match require_admin_auth(vault, call, &admin) {
        Err(e) => return Err(e),
        Ok(()) => {},
    }
    if amount <= 0 {
        return Err(Error::InvalidRecoveryAmount);
    }
    vault.outbox.publish(
        Event::Recovery(
            RecoveryEvent { admin, recipient, amount, reason, timestamp: call.now },
        ),
    );
    Ok(())
}

/// Add a token to the accepted token registry. Admin only.
pub fn add_accepted_token(
    vault: &mut SubscriptionVault,
    call: &Call,
    admin: Address,
    token: Address,
    decimals: u32,
) -> (result: Result<(), Error>)
    requires
        call.signed_by(admin),
    ensures
        match admin_refusal(old(vault)@, admin) {
            Some(e) => result == Err::<(), Error>(e) && final(vault)@ == old(vault)@,
            None => result == Ok::<(), Error>(()) && final(vault)@ == (VaultState {
                tokens: accepting(old(vault)@.tokens, token, decimals),
                ..old(vault)@
            }),
        },
{
    match require_admin_auth(vault, call, &admin) {
        Err(e) => return Err(e),
        Ok(()) => {},
    }
    accept_token(&mut vault.tokens, token, decimals);
    Ok(())
}

/// Why a token is not taken off the registry: the default token stays, and a token that is
/// not accepted cannot be removed.
pub open spec fn token_removal_refusal(
    s: VaultState,
    admin: Address,
    token: Address,
) -> Option<Error> {
    match admin_refusal(s, admin) {
        Some(e) => Some(e),
        None => if s.config.token == Some(token) {
            Some(Error::InvalidInput)
        } else if !is_accepted(s, token) {
            Some(Error::NotFound)
        } else {
            None
        },
    }
}

/// Remove a non-default token from accepted token registry. Admin only.
pub fn remove_accepted_token(
    vault: &mut SubscriptionVault,
    call: &Call,
    admin: Address,
    token: Address,
) -> (result: Result<(), Error>)
    requires
        call.signed_by(admin),
    ensures
        match token_removal_refusal(old(vault)@, admin, token) {
            Some(e) => result == Err::<(), Error>(e) && final(vault)@ == old(vault)@,
            None => result == Ok::<(), Error>(()) && final(vault)@ == (VaultState {
                tokens: old(vault)@.tokens.remove(
                    position_of(old(vault)@.tokens, token)->Some_0,
                ),
                ..old(vault)@
            }),
        },
{
    match require_admin_auth(vault, call, &admin) {
        Err(e) => return Err(e),
        Ok(()) => {},
    }
    if let Some(default_token) = vault.config.token {
        if default_token == token {
            return Err(Error::InvalidInput);
        }
    }
    match find_token(&vault.tokens, &token) {
        Some(i) => {
            vault.tokens.remove(i);
            Ok(())
        },
        None => Err(Error::NotFound),
    }
}

/// List accepted token metadata.
pub fn list_accepted_tokens(vault: &SubscriptionVault) -> (tokens: Vec<AcceptedToken>)
    ensures
        tokens@ == vault@.tokens,
{
    let mut tokens: Vec<AcceptedToken> = Vec::new();
    let mut i: usize = 0;
    while i < vault.tokens.len()
        invariant
            i <= vault.tokens@.len(),
            tokens@ == vault.tokens@.take(i as int),
        decreases vault.tokens@.len() - i,
    {
        tokens.push(vault.tokens[i]);
        i = i + 1;
        assert(tokens@ =~= vault.tokens@.take(i as int));
    }
    assert(tokens@ =~= vault.tokens@);
    tokens
}

/// How a charge is reported in a batch.
pub open spec fn reported(outcome: Result<(), Error>) -> BatchChargeResult {
    match outcome {
        Ok(_) => BatchChargeResult { success: true, error_code: 0 },
        Err(e) => BatchChargeResult { success: false, error_code: e.code() },
    }
}

/// Charging subscriptions one after the other, each from the state that the one before
/// left.
pub open spec fn charged_in_turn(
    s: VaultState,
    ids: Seq<u32>,
    now: u64,
    quote: OraclePrice,
) -> (VaultState, Seq<BatchChargeResult>)
    decreases ids.len(),
{
    if ids.len() == 0 {
        (s, Seq::empty())
    } else {
        let (before, results) = charged_in_turn(s, ids.drop_last(), now, quote);
        let (after, outcome) = interval_charge(before, ids.last(), now, None, quote);
        (after, results.push(reported(outcome)))
    }
}

/// Charging one subscription keeps every other one chargeable or not, and gives no
/// subscription a zero interval.
proof fn lemma_periods_stay(
    s: VaultState,
    id: u32,
    now: u64,
    quote: OraclePrice,
    other: u32,
)
    requires
        has_period(s, other),
    ensures
        has_period(interval_charge(s, id, now, None, quote).0, other),
{
}

/// Charges every listed subscription in turn. A charge that fails is reported and the
/// batch goes on. Admin only.
pub fn do_batch_charge(
    vault: &mut SubscriptionVault,
    call: &Call,
    subscription_ids: &Vec<u32>,
    quote: &OraclePrice,
) -> (result: Result<Vec<BatchChargeResult>, Error>)
    requires
        old(vault)@.config.admin matches Some(admin) ==> call.signed_by(admin),
        forall|i: int|
            0 <= i < subscription_ids@.len() ==> has_period(
                old(vault)@,
                #[trigger] subscription_ids@[i],
            ),
    ensures
        match result {
            Err(e) => e == Error::NotInitialized && old(vault)@.config.admin is None
                && final(vault)@ == old(vault)@,
            Ok(results) => old(vault)@.config.admin is Some && (final(vault)@, results@)
                == charged_in_turn(old(vault)@, subscription_ids@, call.now, *quote),
        },
{
    match require_admin(vault) {
        Err(e) => return Err(e),
        Ok(_) => {},
    }
    let mut results: Vec<BatchChargeResult> = Vec::new();
    let mut i: usize = 0;
    assert(subscription_ids@.take(0) =~= Seq::<u32>::empty());
    while i < subscription_ids.len()
        invariant
            i <= subscription_ids@.len(),
            forall|n: int|
                0 <= n < subscription_ids@.len() ==> has_period(
                    vault@,
                    #[trigger] subscription_ids@[n],
                ),
            (vault@, results@) == charged_in_turn(
                old(vault)@,
                subscription_ids@.take(i as int),
                call.now,
                *quote,
            ),
        decreases subscription_ids@.len() - i,
    {
        let ghost before = vault@;
        let id: u32 = subscription_ids[i];
        assert(subscription_ids@.take(i + 1).drop_last() =~= subscription_ids@.take(i as int));
        let outcome = charge_one(vault, id, call.now, None, quote);
        match outcome {
            Ok(()) => {
                results.push(BatchChargeResult { success: true, error_code: 0 });
            },
            Err(e) => {
                results.push(BatchChargeResult { success: false, error_code: e.to_code() });
            },
        }
        assert forall|n: int| 0 <= n < subscription_ids@.len() implies has_period(
            vault@,
            #[trigger] subscription_ids@[n],
        ) by {
            lemma_periods_stay(before, id, call.now, *quote, subscription_ids@[n]);
        }
        i = i + 1;
    }
    assert(subscription_ids@.take(i as int) =~= subscription_ids@);
    Ok(results)
}

// ── Laws ─────────────────────────────────────────────────────────────────────

/// No token is listed twice.
pub open spec fn tokens_are_distinct(tokens: Seq<AcceptedToken>) -> bool {
    forall|i: int, j: int|
        0 <= i < j < tokens.len() ==> (#[trigger] tokens[i]).token != (#[trigger] tokens[j]).token
}

/// A token is found if and only if it is listed.
pub(crate) proof fn lemma_position_is_listed(tokens: Seq<AcceptedToken>, token: Address)
    ensures
        match position_of(tokens, token) {
            Some(i) => 0 <= i < tokens.len() && tokens[i].token == token,
            None => forall|i: int| 0 <= i < tokens.len() ==> tokens[i].token != token,
        },
    decreases tokens.len(),
{
    if tokens.len() > 0 {
        lemma_position_is_listed(tokens.drop_last(), token);
        if position_of(tokens, token) is None {
            assert forall|i: int| 0 <= i < tokens.len() implies tokens[i].token != token by {
                if i < tokens.len() - 1 {
                    assert(tokens.drop_last()[i] == tokens[i]);
                }
            }
        }
    }
}

/// In a registry that lists no token twice, every entry is found.
pub(crate) proof fn lemma_listed_is_found(tokens: Seq<AcceptedToken>, i: int)
    requires
        tokens_are_distinct(tokens),
        0 <= i < tokens.len(),
    ensures
        position_of(tokens, tokens[i].token) == Some(i),
{
    lemma_position_is_listed(tokens, tokens[i].token);
    let found = position_of(tokens, tokens[i].token)->Some_0;
    assert(tokens[found].token == tokens[i].token);
}

/// An added token is accepted with its decimals, no token is listed twice, and nothing
/// changes for other tokens.
pub proof fn accepted_token_is_registered(
    tokens: Seq<AcceptedToken>,
    token: Address,
    decimals: u32,
    other: Address,
)
    requires
        tokens_are_distinct(tokens),
    ensures
        tokens_are_distinct(accepting(tokens, token, decimals)),
        decimals_of(accepting(tokens, token, decimals), token) == Some(decimals),
        other != token ==> decimals_of(accepting(tokens, token, decimals), other)
            == decimals_of(tokens, other),
        position_of(tokens, other) is Some ==> position_of(
            accepting(tokens, token, decimals),
            other,
        ) is Some,
{
    let grown = accepting(tokens, token, decimals);
    lemma_position_is_listed(tokens, token);
    lemma_position_is_listed(tokens, other);
    lemma_position_is_listed(grown, other);
    let place = match position_of(tokens, token) {
        Some(i) => i,
        None => tokens.len() as int,
    };
    assert(grown[place] == (AcceptedToken { token, decimals }));
    assert forall|i: int, j: int| 0 <= i < j < grown.len() implies (#[trigger] grown[i]).token != (
    #[trigger] grown[j]).token by {
        if j == place && place == tokens.len() {
            assert(tokens[i].token != token);
        } else {
            assert(tokens[i].token != tokens[j].token);
        }
    }
    lemma_listed_is_found(grown, place);
    if other != token {
        match position_of(tokens, other) {
            Some(i) => {
                assert(grown[i] == tokens[i]);
                lemma_listed_is_found(grown, i);
            },
            None => {
                if let Some(i) = position_of(grown, other) {
                    assert(i != place);
                    assert(grown[i] == tokens[i]);
                }
            },
        }
    }
}

/// A removed token is no longer accepted, and nothing changes for other tokens.
pub proof fn removed_token_is_not_accepted(
    tokens: Seq<AcceptedToken>,
    token: Address,
    other: Address,
)
    requires
        tokens_are_distinct(tokens),
        position_of(tokens, token) is Some,
    ensures
        ({
            let rest = tokens.remove(position_of(tokens, token)->Some_0);
            &&& tokens_are_distinct(rest)
            &&& position_of(rest, token) is None
            &&& other != token ==> decimals_of(rest, other) == decimals_of(tokens, other)
        }),
{
    let gone = position_of(tokens, token)->Some_0;
    let rest = tokens.remove(gone);
    lemma_position_is_listed(tokens, token);
    lemma_position_is_listed(tokens, other);
    lemma_position_is_listed(rest, token);
    lemma_position_is_listed(rest, other);
    let before = |i: int| if i < gone {
        i
    } else {
        i + 1
    };
    assert forall|i: int| 0 <= i < rest.len() implies #[trigger] rest[i] == tokens[before(i)] by {}
    assert forall|i: int, j: int| 0 <= i < j < rest.len() implies (#[trigger] rest[i]).token != (
    #[trigger] rest[j]).token by {
        assert(tokens[before(i)].token != tokens[before(j)].token);
    }
    if let Some(i) = position_of(rest, token) {
        assert(rest[i] == tokens[before(i)]);
        assert(tokens[before(i)].token == tokens[gone].token);
        assert(before(i) != gone);
    }
    if other != token {
        match position_of(tokens, other) {
            Some(i) => {
                let place = if i < gone {
                    i
                } else {
                    i - 1
                };
                assert(rest[place] == tokens[i]);
                lemma_listed_is_found(rest, place);
            },
            None => {
                if let Some(i) = position_of(rest, other) {
                    assert(rest[i] == tokens[before(i)]);
                }
            },
        }
    }
}

/// The admin role moves as a whole: after a rotation the new admin is admitted, and the old
/// one is not unless it is the same.
pub proof fn rotation_moves_the_role(
    s: VaultState,
    current_admin: Address,
    new_admin: Address,
    now: u64,
)
    ensures
        admin_refusal(rotated(s, current_admin, new_admin, now), new_admin) is None,
        current_admin != new_admin ==> admin_refusal(
            rotated(s, current_admin, new_admin, now),
            current_admin,
        ) == Some(Error::Unauthorized),
{
}

} // verus!
