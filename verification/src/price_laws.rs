//! What an interval costs, and which tokens the vault takes.
use crate::admin::{
    accepting, decimals_of, is_accepted, lemma_listed_is_found, lemma_position_is_listed,
    position_of, token_removal_refusal,
};
use crate::oracle::{charge_amount, conversion_rounds_up, oracle_config_refusal};
use crate::types::{AcceptedToken, Address, Error, OraclePrice, Subscription};
use crate::vault::VaultState;
use vstd::arithmetic::power::pow;
use vstd::prelude::*;

verus! {

/// No token is registered twice.
pub open spec fn is_registry(tokens: Seq<AcceptedToken>) -> bool {
    forall|i: int, j: int|
        0 <= i < j < tokens.len() ==> (#[trigger] tokens[i]).token != (#[trigger] tokens[j]).token
}

/// A token is accepted if and only if the registry has an entry of it, and its decimals are
/// those of the entry.
pub proof fn accepted_tokens_are_registered(s: VaultState, token: Address)
    ensures
        is_accepted(s, token) <==> exists|i: int|
            0 <= i < s.tokens.len() && (#[trigger] s.tokens[i]).token == token,
        decimals_of(s.tokens, token) is Some <==> exists|i: int|
            0 <= i < s.tokens.len() && (#[trigger] s.tokens[i]).token == token,
        is_registry(s.tokens) ==> forall|i: int|
            0 <= i < s.tokens.len() && (#[trigger] s.tokens[i]).token == token ==> decimals_of(
                s.tokens,
                token,
            ) == Some(s.tokens[i].decimals),
{
    lemma_position_is_listed(s.tokens, token);
    if let Some(i) = position_of(s.tokens, token) {
        assert(s.tokens[i].token == token);
    }
    if is_registry(s.tokens) {
        assert forall|i: int|
            0 <= i < s.tokens.len() && (#[trigger] s.tokens[i]).token == token implies decimals_of(
            s.tokens,
            token,
        ) == Some(s.tokens[i].decimals) by {
            lemma_listed_is_found(s.tokens, i);
        }
    }
}

/// Accepting a token again replaces its entry in place; accepting a new one adds an entry
/// behind the others. No other entry moves or changes.
pub proof fn accepting_keeps_the_other_entries(
    tokens: Seq<AcceptedToken>,
    token: Address,
    decimals: u32,
)
    requires
        is_registry(tokens),
    ensures
        ({
            let grown = accepting(tokens, token, decimals);
            let entry = AcceptedToken { token, decimals };
            &&& (exists|i: int| 0 <= i < tokens.len() && (#[trigger] tokens[i]).token == token)
                ==> grown.len() == tokens.len()
            &&& (forall|i: int| 0 <= i < tokens.len() ==> (#[trigger] tokens[i]).token != token)
                ==> grown == tokens.push(entry)
            &&& forall|i: int|
                0 <= i < tokens.len() ==> #[trigger] grown[i] == if tokens[i].token == token {
                    entry
                } else {
                    tokens[i]
                }
        }),
{
    lemma_position_is_listed(tokens, token);
    let grown = accepting(tokens, token, decimals);
    if let Some(at) = position_of(tokens, token) {
        assert forall|i: int| 0 <= i < tokens.len() implies #[trigger] grown[i]
            == if tokens[i].token == token {
            (AcceptedToken { token, decimals })
        } else {
            tokens[i]
        } by {
            if i != at && tokens[i].token == token {
                assert(tokens[at].token == tokens[i].token);
            }
        }
    }
}

/// Only the administrator removes a token, never the token that the vault was set up with,
/// and only one that is registered.
pub proof fn token_removal_is_checked(s: VaultState, admin: Address, token: Address)
    ensures
        token_removal_refusal(s, admin, token) == if s.config.admin is None {
            Some(Error::NotInitialized)
        } else if s.config.admin->Some_0 != admin {
            Some(Error::Unauthorized)
        } else if s.config.token is Some && s.config.token->Some_0 == token {
            Some(Error::InvalidInput)
        } else if !exists|i: int|
            0 <= i < s.tokens.len() && (#[trigger] s.tokens[i]).token == token {
            Some(Error::NotFound)
        } else {
            None
        },
{
    accepted_tokens_are_registered(s, token);
}

/// Without oracle pricing an interval costs the subscription's amount, whatever is quoted.
pub proof fn fixed_price_is_the_amount(
    s: VaultState,
    sub: Subscription,
    quote: OraclePrice,
    now: u64,
)
    requires
        !s.config.oracle.enabled,
    ensures
        charge_amount(s, sub, quote, now) == Ok::<i128, Error>(sub.amount),
{
}

/// With oracle pricing, there is no price without an oracle (`OracleNotConfigured`), on a
/// quote that is not positive (`OraclePriceInvalid`), without a time
/// (`OraclePriceUnavailable`) or older than the limit on its age (`OraclePriceStale`).
pub proof fn quotes_are_checked_in_order(
    s: VaultState,
    sub: Subscription,
    quote: OraclePrice,
    now: u64,
)
    requires
        s.config.oracle.enabled,
    ensures
        ({
            let price = charge_amount(s, sub, quote, now);
            let most = s.config.oracle.max_age_seconds;
            if s.config.oracle.oracle is None {
                price == Err::<i128, Error>(Error::OracleNotConfigured)
            } else if quote.price <= 0 {
                price == Err::<i128, Error>(Error::OraclePriceInvalid)
            } else if quote.timestamp == 0 {
                price == Err::<i128, Error>(Error::OraclePriceUnavailable)
            } else if most > 0 && quote.timestamp + most < now {
                price == Err::<i128, Error>(Error::OraclePriceStale)
            } else {
                price != Err::<i128, Error>(Error::OraclePriceStale) && price != Err::<i128, Error>(
                    Error::OraclePriceUnavailable,
                )
            }
        }),
{
}

/// A quote that is positive, has a time and is not too old.
pub open spec fn is_usable(s: VaultState, quote: OraclePrice, now: u64) -> bool {
    &&& s.config.oracle.enabled
    &&& s.config.oracle.oracle is Some
    &&& quote.price > 0
    &&& quote.timestamp != 0
    &&& s.config.oracle.max_age_seconds > 0 ==> now <= quote.timestamp
        + s.config.oracle.max_age_seconds
}

/// What the conversion of `amount` at the quoted price into a token of `decimals` owes: the
/// smallest number of the token's units that is worth the amount, where the machine's
/// numbers hold it.
pub open spec fn converts(
    price: Result<i128, Error>,
    amount: i128,
    decimals: u32,
    quote: OraclePrice,
) -> bool {
    let worth = amount * pow(10, decimals as nat);
    if pow(10, decimals as nat) > i128::MAX || worth < i128::MIN || worth + quote.price - 1
        > i128::MAX {
        price == Err::<i128, Error>(Error::Overflow)
    } else if worth <= 0 {
        price == Err::<i128, Error>(Error::OraclePriceInvalid)
    } else {
        &&& price is Ok
        &&& (price->Ok_0 - 1) * quote.price < worth <= price->Ok_0 * quote.price
    }
}

/// On a usable quote, a subscription whose own token is registered with `decimals` is
/// charged the smallest amount of that token that is worth its price.
pub proof fn own_token_prices_the_charge(
    s: VaultState,
    sub: Subscription,
    quote: OraclePrice,
    now: u64,
    entry: int,
)
    requires
        is_usable(s, quote, now),
        is_registry(s.tokens),
        0 <= entry < s.tokens.len(),
        s.tokens[entry].token == sub.token,
    ensures
        converts(
            charge_amount(s, sub, quote, now),
            sub.amount,
            s.tokens[entry].decimals,
            quote,
        ),
{
    lemma_listed_is_found(s.tokens, entry);
    let price = charge_amount(s, sub, quote, now);
    if price is Ok {
        conversion_rounds_up(sub.amount, s.tokens[entry].decimals, quote.price);
    }
}

/// On a usable quote, a subscription whose token is no longer registered is charged as in a
/// token of six decimals.
pub proof fn unregistered_token_has_six_decimals(
    s: VaultState,
    sub: Subscription,
    quote: OraclePrice,
    now: u64,
)
    requires
        is_usable(s, quote, now),
        forall|i: int| 0 <= i < s.tokens.len() ==> (#[trigger] s.tokens[i]).token != sub.token,
    ensures
        converts(charge_amount(s, sub, quote, now), sub.amount, 6, quote),
{
    lemma_position_is_listed(s.tokens, sub.token);
    let price = charge_amount(s, sub, quote, now);
    if price is Ok {
        conversion_rounds_up(sub.amount, 6, quote.price);
    }
}

/// What an interval costs depends on no other token's registration: in two vaults with the
/// same oracle settings, in which the subscription's token has the same decimals, it costs
/// the same.
pub proof fn other_tokens_do_not_matter(
    s: VaultState,
    t: VaultState,
    sub: Subscription,
    quote: OraclePrice,
    now: u64,
    here: int,
    there: int,
)
    requires
        s.config.oracle == t.config.oracle,
        is_registry(s.tokens),
        is_registry(t.tokens),
        0 <= here < s.tokens.len(),
        0 <= there < t.tokens.len(),
        s.tokens[here].token == sub.token,
        t.tokens[there].token == sub.token,
        s.tokens[here].decimals == t.tokens[there].decimals,
    ensures
        charge_amount(s, sub, quote, now) == charge_amount(t, sub, quote, now),
{
    lemma_listed_is_found(s.tokens, here);
    lemma_listed_is_found(t.tokens, there);
}

/// Oracle pricing is switched on only with an oracle and with a limit on a quote's age.
pub proof fn oracle_settings_are_checked(
    enabled: bool,
    oracle: Option<Address>,
    max_age_seconds: u64,
)
    ensures
        oracle_config_refusal(enabled, oracle, max_age_seconds) == if !enabled {
            None
        } else if oracle is None {
            Some(Error::OracleNotConfigured)
        } else if max_age_seconds == 0 {
            Some(Error::InvalidInput)
        } else {
            None
        },
{
}

} // verus!
