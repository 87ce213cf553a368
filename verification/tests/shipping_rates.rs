//! Shipping-rate resolution against the built-in tables.

use storefront::shipping::Shipping;
use storefront::shipping::ShippingError;
use storefront::shipping::standard_tables;

#[test]
fn pt_mainland_first_tier() {
    // 800 g to a mainland postal code with a 50.00 EUR order: below the
    // free-shipping threshold, first tier (<= 1000 g) applies.
    let s = Shipping::new(standard_tables());
    assert_eq!(s.calculate("PT", "1000-100", 800, 5_000), Ok(490));
}

#[test]
fn pt_free_shipping_over_threshold() {
    // Same destination with a 150.00 EUR order: at or above the 100.00 EUR
    // threshold shipping is free regardless of weight.
    let s = Shipping::new(standard_tables());
    assert_eq!(s.calculate("PT", "1000-100", 800, 15_000), Ok(0));
}

#[test]
fn es_wildcard_region_weight_tier() {
    // Spain has a single nationwide region with no patterns: any postal
    // code matches; 4500 g falls into the <= 5000 g tier.
    let s = Shipping::new(standard_tables());
    assert_eq!(s.calculate("ES", "28001", 4_500, 5_000), Ok(2450));
    assert_eq!(s.calculate("ES", "", 4_500, 5_000), Ok(2450));
}

#[test]
fn pt_madeira_and_acores_regions() {
    let s = Shipping::new(standard_tables());
    assert_eq!(s.calculate("PT", "9000-100", 800, 5_000), Ok(590));
    assert_eq!(s.calculate("PT", "9500-100", 800, 5_000), Ok(690));
}

#[test]
fn unknown_country_fails() {
    let s = Shipping::new(standard_tables());
    assert_eq!(
        s.calculate("FR", "75001", 800, 5_000),
        Err(ShippingError::CountryNotFound)
    );
}

#[test]
fn unmatched_postcode_fails() {
    // "0500" starts with a digit no Portuguese region pattern covers.
    let s = Shipping::new(standard_tables());
    assert_eq!(
        s.calculate("PT", "0500", 800, 5_000),
        Err(ShippingError::PostcodeNotMatched)
    );
}

#[test]
fn overweight_fails() {
    // 6000 g exceeds the last tier ceiling of 5000 g.
    let s = Shipping::new(standard_tables());
    assert_eq!(
        s.calculate("PT", "1000-100", 6_000, 5_000),
        Err(ShippingError::NoPriceForWeight)
    );
}

#[test]
fn tier_boundary_is_inclusive() {
    // A weight exactly on a ceiling takes that tier; one gram more takes
    // the next.
    let s = Shipping::new(standard_tables());
    assert_eq!(s.calculate("PT", "1000-100", 1_000, 5_000), Ok(490));
    assert_eq!(s.calculate("PT", "1000-100", 1_001, 5_000), Ok(830));
}

#[test]
fn heavier_shipments_never_cost_less() {
    let s = Shipping::new(standard_tables());
    let mut last = 0u64;
    for w in [100u64, 1_000, 1_001, 2_500, 4_000, 5_000] {
        let p = s.calculate("PT", "1000-100", w, 5_000).unwrap();
        assert!(p >= last);
        assert!(p > 0);
        last = p;
    }
}

#[test]
fn calculate_is_deterministic() {
    // Identical arguments give identical results, including errors.
    let s = Shipping::new(standard_tables());
    assert_eq!(
        s.calculate("PT", "1000-100", 800, 5_000),
        s.calculate("PT", "1000-100", 800, 5_000)
    );
    assert_eq!(
        s.calculate("PT", "0500", 800, 5_000),
        s.calculate("PT", "0500", 800, 5_000)
    );
}
