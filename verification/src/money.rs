//! Tax arithmetic on integer euro cents.
//!
//! A tax rate is a whole percentage. When prices already include tax, the
//! tax component of a price is backed out (`price - price / (1 + rate/100)`);
//! otherwise it is added on top (`price * rate / 100`). All divisions
//! truncate, which keeps every amount an exact integer number of cents.

use vstd::prelude::*;

verus! {

/// Largest unit price, in cents, the tax helpers accept (guards overflow).
pub const TAX_PRICE_CAP: u64 = 1_000_000_000_000_000;

/// Largest tax rate, in whole percent, the tax helpers accept (guards overflow).
pub const TAX_RATE_CAP: u32 = 1_000;

/// Net (tax-free) part of a tax-inclusive price: `price / (1 + rate/100)`,
/// computed in cents as `price * 100 / (100 + rate)`.
pub open spec fn spec_net(price: int, rate: int) -> int {
    (price * 100) / (100 + rate)
}

/// Tax component of a price: backed out of a tax-inclusive price,
/// added on top of a tax-exclusive one.
pub open spec fn spec_tax(price: int, rate: int, include_tax: bool) -> int {
    if include_tax {
        price - spec_net(price, rate)
    } else {
        (price * rate) / 100
    }
}

/// Tax component of `price` at `tax_rate` percent under the given
/// price-inclusion policy, in cents.
pub fn calc_tax_value(price: u64, tax_rate: u32, price_include_tax: bool) -> (r: u64)
    requires
        price <= TAX_PRICE_CAP,
        tax_rate <= TAX_RATE_CAP,
    ensures
        r == spec_tax(price as int, tax_rate as int, price_include_tax),
        price_include_tax ==> r <= price,
{
    if price_include_tax {
        let net = (price * 100) / (100 + tax_rate as u64);
        assert((price as int * 100) / (100 + tax_rate as int) <= price as int)
            by (nonlinear_arith)
            requires
                0 <= price as int,
                0 <= tax_rate as int,
        ;
        price - net
    } else {
        assert(price as int * tax_rate as int <= 1_000_000_000_000_000int * 1_000int)
            by (nonlinear_arith)
            requires
                0 <= price as int <= 1_000_000_000_000_000int,
                0 <= tax_rate as int <= 1_000int,
        ;
        (price * (tax_rate as u64)) / 100
    }
}

/// Net price of a tax-inclusive `price` at `tax_rate` percent, in cents.
pub fn net_price(price: u64, tax_rate: u32) -> (r: u64)
    requires
        price <= TAX_PRICE_CAP,
        tax_rate <= TAX_RATE_CAP,
    ensures
        r == spec_net(price as int, tax_rate as int),
        r <= price,
{
    let net = (price * 100) / (100 + tax_rate as u64);
    assert((price as int * 100) / (100 + tax_rate as int) <= price as int)
        by (nonlinear_arith)
        requires
            0 <= price as int,
            0 <= tax_rate as int,
    ;
    net
}

/// Law: for tax-inclusive prices, the net price and the tax component
/// recompose the original price exactly.
pub proof fn lemma_tax_inclusive_roundtrip(price: int, rate: int)
    ensures
        spec_net(price, rate) + spec_tax(price, rate, true) == price,
{
}

/// The tax component is non-negative and at most ten times the price
/// whenever the price is within the caps the helpers accept.
pub proof fn lemma_tax_bounds(price: int, rate: int, include_tax: bool)
    requires
        0 <= price,
        0 <= rate <= TAX_RATE_CAP,
    ensures
        0 <= spec_tax(price, rate, include_tax) <= price * 10,
{
    if include_tax {
        assert(0 <= (price * 100) / (100 + rate) <= price) by (nonlinear_arith)
            requires
                0 <= price,
                0 <= rate,
        ;
    } else {
        assert(0 <= (price * rate) / 100 <= price * 10) by (nonlinear_arith)
            requires
                0 <= price,
                0 <= rate <= 1_000,
        ;
    }
}

/// The tax component never shrinks when the price grows.
pub proof fn lemma_tax_monotone(p1: int, p2: int, rate: int, include_tax: bool)
    requires
        0 <= p1 <= p2,
        0 <= rate,
    ensures
        spec_tax(p1, rate, include_tax) <= spec_tax(p2, rate, include_tax),
{
    if include_tax {
        assert((p1 * 100) / (100 + rate) + (p2 - p1) >= (p2 * 100) / (100 + rate))
            by (nonlinear_arith)
            requires
                0 <= p1 <= p2,
                0 <= rate,
        ;
    } else {
        assert((p1 * rate) / 100 <= (p2 * rate) / 100) by (nonlinear_arith)
            requires
                0 <= p1 <= p2,
                0 <= rate,
        ;
    }
}

} // verus!
