//! Tax arithmetic on integer cents.

use storefront::money::calc_tax_value;
use storefront::money::net_price;

#[test]
fn inclusive_tax_is_backed_out() {
    // 12.30 EUR at 23% inclusive: net 10.00 EUR, tax 2.30 EUR.
    assert_eq!(calc_tax_value(1_230, 23, true), 230);
    assert_eq!(net_price(1_230, 23), 1_000);
    // 10.00 EUR at 23% inclusive: net 8.13 EUR, tax 1.87 EUR.
    assert_eq!(calc_tax_value(1_000, 23, true), 187);
    assert_eq!(net_price(1_000, 23), 813);
}

#[test]
fn exclusive_tax_is_additive() {
    assert_eq!(calc_tax_value(1_000, 23, false), 230);
    assert_eq!(calc_tax_value(490, 23, false), 112);
}

#[test]
fn inclusive_tax_recomposes_the_price() {
    // net + tax == price, exactly, for any inclusive price.
    for price in [0u64, 1, 99, 100, 123, 1_000, 1_230, 99_999] {
        let net = net_price(price, 23);
        let tax = calc_tax_value(price, 23, true);
        assert_eq!(net + tax, price);
    }
}

#[test]
fn zero_rate_means_zero_tax() {
    assert_eq!(calc_tax_value(1_000, 0, true), 0);
    assert_eq!(calc_tax_value(1_000, 0, false), 0);
    assert_eq!(net_price(1_000, 0), 1_000);
}
