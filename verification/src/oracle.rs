//! Optional pricing through an external oracle.
//!
//! The oracle itself is asked outside of the vault; its quote comes in as a plain value.
use crate::admin::{decimals_of, get_token_decimals};
use crate::safe_math::{safe_add, safe_mul, safe_pow};
use crate::types::{Address, Error, OracleConfig, OraclePrice, Subscription};
use crate::vault::{Config, SubscriptionVault, VaultState};
use vstd::arithmetic::power::pow;
use vstd::prelude::*;

verus! {

/// Why oracle settings are refused: pricing that is switched on needs an oracle and a
/// largest age of quotes.
pub open spec fn oracle_config_refusal(
    enabled: bool,
    oracle: Option<Address>,
    max_age_seconds: u64,
) -> Option<Error> {
    if enabled && oracle is None {
        Some(Error::OracleNotConfigured)
    } else if enabled && max_age_seconds == 0 {
        Some(Error::InvalidInput)
    } else {
        None
    }
}

/// Stores the oracle settings. Caller must enforce admin auth.
pub fn set_oracle_config(
    vault: &mut SubscriptionVault,
    enabled: bool,
    oracle: Option<Address>,
    max_age_seconds: u64,
) -> (result: Result<(), Error>)
    ensures
        match oracle_config_refusal(enabled, oracle, max_age_seconds) {
            Some(e) => result == Err::<(), Error>(e) && final(vault)@ == old(vault)@,
            None => result == Ok::<(), Error>(()) && final(vault)@ == (VaultState {
                config: Config {
                    oracle: OracleConfig { enabled, oracle, max_age_seconds },
                    ..old(vault)@.config
                },
                ..old(vault)@
            }),
        },
{
    if enabled {
        if oracle.is_none() {
            return Err(Error::OracleNotConfigured);
        }
        if max_age_seconds == 0 {
            return Err(Error::InvalidInput);
        }
    }
    vault.config.oracle = OracleConfig { enabled, oracle, max_age_seconds };
    Ok(())
}

/// The oracle settings.
pub fn get_oracle_config(vault: &SubscriptionVault) -> (config: OracleConfig)
    ensures
        config == vault@.config.oracle,
{
    vault.config.oracle
}

/// Whether the oracle's quote is older than allowed.
pub open spec fn is_stale(config: OracleConfig, quote: OraclePrice, now: u64) -> bool {
    config.max_age_seconds > 0 && now - quote.timestamp > config.max_age_seconds
}

/// A quote-denominated amount in units of the token, rounded up:
/// `ceil(amount * 10^decimals / price)`.
pub open spec fn quoted_amount(amount: i128, decimals: u32, price: i128) -> Result<i128, Error> {
    let scale = pow(10, decimals as nat);
    let numerator = amount * scale;
    if scale > i128::MAX || numerator > i128::MAX || numerator < i128::MIN {
        Err(Error::Overflow)
    } else if numerator + (price - 1) > i128::MAX {
        Err(Error::Overflow)
    } else if numerator <= 0 {
        Err(Error::OraclePriceInvalid)
    } else {
        Ok(((numerator + (price - 1)) / price as int) as i128)
    }
}

/// The amount that an interval of a subscription costs, in units of its token.
pub open spec fn charge_amount(
    s: VaultState,
    sub: Subscription,
    quote: OraclePrice,
    now: u64,
) -> Result<i128, Error> {
    let config = s.config.oracle;
    let decimals = match decimals_of(s.tokens, sub.token) {
        Some(decimals) => decimals,
        None => 6,
    };
    if !config.enabled {
        Ok(sub.amount)
    } else if config.oracle is None {
        Err(Error::OracleNotConfigured)
    } else if quote.price <= 0 {
        Err(Error::OraclePriceInvalid)
    } else if quote.timestamp == 0 {
        Err(Error::OraclePriceUnavailable)
    } else if is_stale(config, quote, now) {
        Err(Error::OraclePriceStale)
    } else {
        quoted_amount(sub.amount, decimals, quote.price)
    }
}

/// Resolve token-denominated charge amount.
///
/// With oracle disabled, returns `subscription.amount` as-is. With oracle enabled,
/// interprets `subscription.amount` as quote units and converts to token base units:
///
/// token_amount = ceil(quote_amount * 10^token_decimals / quote_per_token)
pub fn resolve_charge_amount(
    vault: &SubscriptionVault,
    subscription: &Subscription,
    quote: &OraclePrice,
    now: u64,
) -> (result: Result<i128, Error>)
    ensures
        result == charge_amount(vault@, *subscription, *quote, now),
{
    let config = get_oracle_config(vault);
    if !config.enabled {
        return Ok(subscription.amount);
    }
    if config.oracle.is_none() {
        return Err(Error::OracleNotConfigured);
    }
    if quote.price <= 0 {
        return Err(Error::OraclePriceInvalid);
    }
    if quote.timestamp == 0 {
        return Err(Error::OraclePriceUnavailable);
    }
    if config.max_age_seconds > 0 {
        let age: u64 = if now > quote.timestamp {
            now - quote.timestamp
        } else {
            0
        };
        if age > config.max_age_seconds {
            return Err(Error::OraclePriceStale);
        }
    }
    let decimals: u32 = match get_token_decimals(vault, &subscription.token) {
        Some(decimals) => decimals,
        None => 6,
    };
    let scale: i128 = match safe_pow(10, decimals) {
        Ok(scale) => scale,
        Err(_) => {
            proof {
                vstd::arithmetic::power::lemma_pow_positive(10, decimals as nat);
            }
            return Err(Error::Overflow);
        },
    };
    let numerator: i128 = match safe_mul(subscription.amount, scale) {
        Ok(numerator) => numerator,
        Err(_) => return Err(Error::Overflow),
    };
    let rounded: i128 = match safe_add(numerator, quote.price - 1) {
        Ok(rounded) => rounded,
        Err(_) => return Err(Error::Overflow),
    };
    if numerator <= 0 {
        return Err(Error::OraclePriceInvalid);
    }
    assert(1 <= rounded as int / quote.price as int <= rounded) by (nonlinear_arith)
        requires
            rounded >= quote.price > 0,
    ;
    Ok(rounded / quote.price)
}

/// A conversion gives the smallest token amount whose worth covers the quoted amount: it
/// is positive, `tokens * price` reaches `amount * 10^decimals`, and one token less does
/// not.
pub proof fn conversion_rounds_up(amount: i128, decimals: u32, price: i128)
    requires
        price > 0,
        quoted_amount(amount, decimals, price) is Ok,
    ensures
        ({
            let tokens = quoted_amount(amount, decimals, price)->Ok_0;
            let worth = amount * pow(10, decimals as nat);
            &&& tokens > 0
            &&& (tokens - 1) * price < worth <= tokens * price
        }),
{
    let n = amount * pow(10, decimals as nat);
    let p = price as int;
    let t = (n + (p - 1)) / p;
    assert(t >= 1 && t <= n + (p - 1) && (t - 1) * p < n && n <= t * p) by (nonlinear_arith)
        requires
            n > 0,
            p > 0,
            t == (n + (p - 1)) / p,
    ;
}

} // verus!
