//! Collateral calculation: converts a USD ticket plus a leverage
//! multiplier into the required native-token bond, and a USD ticket into
//! a funding-asset amount, at oracle prices handed in by the caller.
//!
//! Both functions are pure, so the bid and the contribution path can
//! establish validity before any escrow is committed.
use vstd::prelude::*;
use crate::types::{
    Balance, InvestorType, Multiplier, Error, PRICE_UNIT, RETAIL_MAX_MULTIPLIER,
    PROFESSIONAL_MAX_MULTIPLIER, INSTITUTIONAL_MAX_MULTIPLIER,
};

verus! {

/// The largest multiplier an investor class may use.
pub open spec fn spec_max_multiplier(investor: InvestorType) -> u8 {
    match investor {
        InvestorType::Retail => RETAIL_MAX_MULTIPLIER,
        InvestorType::Professional => PROFESSIONAL_MAX_MULTIPLIER,
        InvestorType::Institutional => INSTITUTIONAL_MAX_MULTIPLIER,
    }
}

/// Executable counterpart of `spec_max_multiplier`.
pub fn max_multiplier(investor: InvestorType) -> (r: u8)
    ensures
        r == spec_max_multiplier(investor),
{
    match investor {
        InvestorType::Retail => RETAIL_MAX_MULTIPLIER,
        InvestorType::Professional => PROFESSIONAL_MAX_MULTIPLIER,
        InvestorType::Institutional => INSTITUTIONAL_MAX_MULTIPLIER,
    }
}

/// A multiplier must be at least one and at most the class bound.
pub open spec fn multiplier_allowed(investor: InvestorType, multiplier: Multiplier) -> bool {
    1 <= multiplier <= spec_max_multiplier(investor)
}

/// Validate a multiplier against its investor class.
pub fn check_multiplier(investor: InvestorType, multiplier: Multiplier) -> (r: Result<(), Error>)
    ensures
        r is Ok <==> multiplier_allowed(investor, multiplier),
        r is Err ==> r->Err_0 == Error::ForbiddenMultiplier,
{
    if multiplier >= 1 && multiplier <= max_multiplier(investor) {
        Ok(())
    } else {
        Err(Error::ForbiddenMultiplier)
    }
}

/// The native-token bond a ticket requires: the ticket converted to
/// native units at the oracle price, divided by the multiplier. `None`
/// when the fixed-point conversion overflows or a zero divides.
pub open spec fn spec_plmc_bond(
    ticket_size: Balance,
    multiplier: Multiplier,
    plmc_price: Balance,
) -> Option<Balance> {
    if multiplier == 0 || plmc_price == 0 {
        None
    } else if ticket_size * PRICE_UNIT > u128::MAX {
        None
    } else {
        Some(((ticket_size * PRICE_UNIT / plmc_price as int) / multiplier as int) as Balance)
    }
}

/// The funding-asset amount a ticket converts to at the asset's oracle
/// price. `None` when the fixed-point conversion overflows or the price
/// is zero.
pub open spec fn spec_funding_asset_amount(ticket_size: Balance, asset_price: Balance) -> Option<
    Balance,
> {
    if asset_price == 0 {
        None
    } else if ticket_size * PRICE_UNIT > u128::MAX {
        None
    } else {
        Some((ticket_size * PRICE_UNIT / asset_price as int) as Balance)
    }
}

/// Native-token bond required for a USD ticket under a multiplier, at
/// the oracle price of the native token (in `PRICE_UNIT` fixed point).
/// A higher multiplier requires less bond per USD of exposure.
pub fn calculate_plmc_bond(
    ticket_size: Balance,
    multiplier: Multiplier,
    plmc_price: Balance,
) -> (r: Result<Balance, Error>)
    ensures
        match spec_plmc_bond(ticket_size, multiplier, plmc_price) {
            Some(b) => r == Ok::<Balance, Error>(b),
            None => r == Err::<Balance, Error>(Error::BadMath),
        },
{
    if multiplier == 0 || plmc_price == 0 {
        return Err(Error::BadMath);
    }
    match ticket_size.checked_mul(PRICE_UNIT) {
        None => Err(Error::BadMath),
        Some(scaled) => {
            let native = scaled / plmc_price;
            Ok(native / (multiplier as u128))
        },
    }
}

/// Funding-asset amount required for a USD ticket, at the asset's
/// oracle price (in `PRICE_UNIT` fixed point).
pub fn calculate_funding_asset_amount(ticket_size: Balance, asset_price: Balance) -> (r: Result<
    Balance,
    Error,
>)
    ensures
        match spec_funding_asset_amount(ticket_size, asset_price) {
            Some(b) => r == Ok::<Balance, Error>(b),
            None => r == Err::<Balance, Error>(Error::BadMath),
        },
{
    if asset_price == 0 {
        return Err(Error::BadMath);
    }
    match ticket_size.checked_mul(PRICE_UNIT) {
        None => Err(Error::BadMath),
        Some(scaled) => Ok(scaled / asset_price),
    }
}

/// The USD ticket a token amount costs at a fixed-point price, the
/// checked fixed-point multiplication used by every pricing path.
pub open spec fn spec_ticket_size(price: Balance, ct_amount: Balance) -> Option<Balance> {
    if price * ct_amount > u128::MAX {
        None
    } else {
        Some((price * ct_amount / PRICE_UNIT as int) as Balance)
    }
}

/// USD value of `ct_amount` tokens at `price` (`PRICE_UNIT` fixed point).
pub fn calculate_ticket_size(price: Balance, ct_amount: Balance) -> (r: Result<Balance, Error>)
    ensures
        match spec_ticket_size(price, ct_amount) {
            Some(t) => r == Ok::<Balance, Error>(t),
            None => r == Err::<Balance, Error>(Error::BadMath),
        },
{
    match price.checked_mul(ct_amount) {
        None => Err(Error::BadMath),
        Some(product) => Ok(product / PRICE_UNIT),
    }
}

} // verus!
