//! Shipping-rate resolution: given a destination country and postal code,
//! a total weight in grams and an order value in cents, find the charge in
//! a per-country table of regions with tiered weight-based prices and a
//! free-shipping order-value threshold.
//!
//! Resolution walks a country's regions in table order and takes the first
//! region one of whose postal-code patterns matches (a region with no
//! patterns matches unconditionally). Within the matched region the
//! free-shipping threshold is checked first; otherwise the first tier whose
//! weight ceiling covers the total weight gives the price.

use vstd::prelude::*;
use crate::strutil::str_eq;

verus! {

/// Largest tier price, in cents, a well-formed rate table may carry.
pub const SHIPPING_PRICE_CAP: u64 = 1_000_000_000;

/// What `regex::Regex::is_match` returns for a pattern and a text:
/// a function of the two strings alone.
pub uninterp spec fn pattern_matches(pattern: Seq<char>, text: Seq<char>) -> bool;

/// Relies on `regex::Regex::new` and `regex::Regex::is_match`: whether the
/// pattern matches anywhere in the text, a deterministic function of the
/// pattern and the text alone. A pattern that does not compile matches
/// nothing.
#[verifier::external_body]
fn regex_is_match(pattern: &str, text: &str) -> (r: bool)
    ensures
        r == pattern_matches(pattern@, text@),
{
    match regex::Regex::new(pattern) {
        Ok(re) => re.is_match(text),
        Err(_) => false,
    }
}

/// One weight tier: anything weighing at most `max_weight` grams ships for
/// `price` cents.
#[derive(Clone, Copy, Debug, PartialEq, Eq, Structural)]
pub struct Tier {
    pub max_weight: u64,
    pub price: u64,
}

/// One region of a country: a label, the postal-code patterns that select
/// it, its weight tiers sorted by ascending ceiling, and the order value,
/// in cents, from which shipping is free.
pub struct Region {
    pub label: String,
    pub patterns: Vec<String>,
    pub tiers: Vec<Tier>,
    pub free_shipping: u64,
}

/// The rate table of one country.
pub struct CountryTable {
    pub country: String,
    pub regions: Vec<Region>,
}

/// Why shipping resolution failed.
#[derive(Clone, Copy, Debug, PartialEq, Eq, Structural)]
pub enum ShippingError {
    /// No rate table exists for the destination country.
    CountryNotFound,
    /// No region of the country's table matches the postal code.
    PostcodeNotMatched,
    /// No tier of the matched region covers the total weight.
    NoPriceForWeight,
}

/// The shipping-rate resolver: a set of country tables.
pub struct Shipping {
    pub tables: Vec<CountryTable>,
}

/// Index of the first element at or after `from` satisfying `p`;
/// `s.len()` when there is none.
pub open spec fn first_where<T>(s: Seq<T>, p: spec_fn(T) -> bool, from: int) -> int
    decreases s.len() - from,
{
    if from < 0 || from >= s.len() {
        s.len() as int
    } else if p(s[from]) {
        from
    } else {
        first_where(s, p, from + 1)
    }
}

/// `first_where` from `from` returns exactly `k` when nothing in
/// `[from, k)` satisfies `p` and `k` is a hit or the end.
pub proof fn lemma_first_where_is<T>(s: Seq<T>, p: spec_fn(T) -> bool, from: int, k: int)
    requires
        0 <= from <= k <= s.len(),
        forall|t: int| from <= t < k ==> !p(s[t]),
        k == s.len() || p(s[k]),
    ensures
        first_where(s, p, from) == k,
    decreases k - from,
{
    if from < k {
        lemma_first_where_is(s, p, from + 1, k);
    }
}

/// Position, hit and prefix facts about `first_where`.
pub proof fn lemma_first_where_props<T>(s: Seq<T>, p: spec_fn(T) -> bool, from: int)
    requires
        0 <= from <= s.len(),
    ensures
        from <= first_where(s, p, from) <= s.len(),
        first_where(s, p, from) < s.len() ==> p(s[first_where(s, p, from)]),
        forall|t: int| from <= t < first_where(s, p, from) ==> !p(s[t]),
    decreases s.len() - from,
{
    if from < s.len() && !p(s[from]) {
        lemma_first_where_props(s, p, from + 1);
    }
}


/// The predicate "this table is for `country`".
pub open spec fn country_pred(country: Seq<char>) -> spec_fn(CountryTable) -> bool {
    |t: CountryTable| t.country@ == country
}

/// The predicate "this region matches `postcode`".
pub open spec fn region_pred(postcode: Seq<char>) -> spec_fn(Region) -> bool {
    |r: Region| region_matches(r, postcode)
}

/// The predicate "this tier covers `total_weight`".
pub open spec fn tier_pred(total_weight: u64) -> spec_fn(Tier) -> bool {
    |t: Tier| t.max_weight >= total_weight
}

/// A region matches a postal code when it has no patterns at all
/// (an unconditional, nationwide region) or some pattern matches.
pub open spec fn region_matches(r: Region, postcode: Seq<char>) -> bool {
    r.patterns@.len() == 0 || exists|i: int|
        0 <= i < r.patterns@.len() && pattern_matches(r.patterns@[i]@, postcode)
}

/// The resolved charge, in cents: the first matching region's free-shipping
/// threshold or first covering weight tier, by the walk described at the
/// top of this module.
pub open spec fn spec_calculate(
    tables: Seq<CountryTable>,
    country: Seq<char>,
    postcode: Seq<char>,
    total_weight: u64,
    total_order: u64,
) -> Result<u64, ShippingError> {
    let ci = first_where(tables, country_pred(country), 0);
    if ci == tables.len() {
        Err(ShippingError::CountryNotFound)
    } else {
        let regions = tables[ci].regions@;
        let ri = first_where(regions, region_pred(postcode), 0);
        if ri == regions.len() {
            Err(ShippingError::PostcodeNotMatched)
        } else if total_order >= regions[ri].free_shipping {
            Ok(0u64)
        } else {
            let tiers = regions[ri].tiers@;
            let ti = first_where(tiers, tier_pred(total_weight), 0);
            if ti == tiers.len() {
                Err(ShippingError::NoPriceForWeight)
            } else {
                Ok(tiers[ti].price)
            }
        }
    }
}

/// A regular paid tariff: no tier is free, and the price never shrinks as
/// the weight ceiling grows. The built-in tables satisfy it.
pub open spec fn region_prices_regular(r: Region) -> bool {
    &&& forall|k: int| 0 <= k < r.tiers@.len() ==> 1 <= (#[trigger] r.tiers@[k]).price
    &&& forall|k: int, l: int|
        0 <= k < l < r.tiers@.len() ==> r.tiers@[k].price <= r.tiers@[l].price
}

/// All regions of all tables carry a regular paid tariff.
pub open spec fn tables_prices_regular(tables: Seq<CountryTable>) -> bool {
    forall|i: int, j: int|
        0 <= i < tables.len() && 0 <= j < tables[i].regions@.len() ==> region_prices_regular(
            #[trigger] tables[i].regions@[j],
        )
}

/// Every tier price is within the cap and tiers come sorted by ascending
/// weight ceiling.
pub open spec fn region_wf(r: Region) -> bool {
    &&& forall|k: int| 0 <= k < r.tiers@.len() ==> r.tiers@[k].price <= SHIPPING_PRICE_CAP
    &&& forall|k: int, l: int|
        0 <= k < l < r.tiers@.len() ==> r.tiers@[k].max_weight <= r.tiers@[l].max_weight
}

/// All regions of all tables are well formed.
pub open spec fn tables_wf(tables: Seq<CountryTable>) -> bool {
    forall|i: int, j: int|
        0 <= i < tables.len() && 0 <= j < tables[i].regions@.len() ==> region_wf(
            #[trigger] tables[i].regions@[j],
        )
}

/// A successful resolution against well-formed tables never exceeds the
/// tier price cap.
pub proof fn lemma_calculate_price_bounded(
    tables: Seq<CountryTable>,
    country: Seq<char>,
    postcode: Seq<char>,
    total_weight: u64,
    total_order: u64,
)
    requires
        tables_wf(tables),
    ensures
        match spec_calculate(tables, country, postcode, total_weight, total_order) {
            Ok(p) => p <= SHIPPING_PRICE_CAP,
            Err(_) => true,
        },
{
    let ci = first_where(tables, country_pred(country), 0);
    lemma_first_where_props(tables, country_pred(country), 0);
    if ci < tables.len() {
        let regions = tables[ci].regions@;
        let ri = first_where(regions, region_pred(postcode), 0);
        lemma_first_where_props(regions, region_pred(postcode), 0);
        if ri < regions.len() && total_order < regions[ri].free_shipping {
            let tiers = regions[ri].tiers@;
            let ti = first_where(tiers, tier_pred(total_weight), 0);
            lemma_first_where_props(tiers, tier_pred(total_weight), 0);
            if ti < tiers.len() {
                assert(region_wf(regions[ri]));
                assert(tiers[ti].price <= SHIPPING_PRICE_CAP);
            }
        }
    }
}

/// Law: under a regular tariff, a resolution below the matched region's
/// free-shipping threshold charges one of that region's listed tier
/// prices — hence a positive amount — and a resolution at or over the
/// threshold charges nothing.
pub proof fn lemma_calculate_paid_price_listed(
    tables: Seq<CountryTable>,
    country: Seq<char>,
    postcode: Seq<char>,
    total_weight: u64,
    total_order: u64,
)
    requires
        tables_prices_regular(tables),
    ensures
        ({
            let ci = first_where(tables, country_pred(country), 0);
            let regions = tables[ci].regions@;
            let ri = first_where(regions, region_pred(postcode), 0);
            match spec_calculate(tables, country, postcode, total_weight, total_order) {
                Ok(p) => if total_order >= regions[ri].free_shipping {
                    p == 0
                } else {
                    1 <= p && exists|k: int|
                        0 <= k < regions[ri].tiers@.len() && (#[trigger] regions[ri].tiers@[
                            k
                        ]).price == p
                },
                Err(_) => true,
            }
        }),
{
    let ci = first_where(tables, country_pred(country), 0);
    lemma_first_where_props(tables, country_pred(country), 0);
    if ci < tables.len() {
        let regions = tables[ci].regions@;
        let ri = first_where(regions, region_pred(postcode), 0);
        lemma_first_where_props(regions, region_pred(postcode), 0);
        if ri < regions.len() && total_order < regions[ri].free_shipping {
            let tiers = regions[ri].tiers@;
            let ti = first_where(tiers, tier_pred(total_weight), 0);
            lemma_first_where_props(tiers, tier_pred(total_weight), 0);
            if ti < tiers.len() {
                assert(region_prices_regular(regions[ri]));
                assert(1 <= tiers[ti].price);
            }
        }
    }
}

/// Law: under a regular tariff, two successful resolutions that differ
/// only in the total weight charge non-decreasing amounts: a heavier
/// shipment never costs less.
pub proof fn lemma_calculate_weight_monotone(
    tables: Seq<CountryTable>,
    country: Seq<char>,
    postcode: Seq<char>,
    w1: u64,
    w2: u64,
    total_order: u64,
)
    requires
        tables_prices_regular(tables),
        w1 <= w2,
    ensures
        match (
            spec_calculate(tables, country, postcode, w1, total_order),
            spec_calculate(tables, country, postcode, w2, total_order),
        ) {
            (Ok(p1), Ok(p2)) => p1 <= p2,
            _ => true,
        },
{
    let ci = first_where(tables, country_pred(country), 0);
    lemma_first_where_props(tables, country_pred(country), 0);
    if ci < tables.len() {
        let regions = tables[ci].regions@;
        let ri = first_where(regions, region_pred(postcode), 0);
        lemma_first_where_props(regions, region_pred(postcode), 0);
        if ri < regions.len() && total_order < regions[ri].free_shipping {
            let tiers = regions[ri].tiers@;
            let t1 = first_where(tiers, tier_pred(w1), 0);
            let t2 = first_where(tiers, tier_pred(w2), 0);
            lemma_first_where_props(tiers, tier_pred(w1), 0);
            lemma_first_where_props(tiers, tier_pred(w2), 0);
            if t1 < tiers.len() && t2 < tiers.len() {
                // A tier that covers the heavier shipment covers the
                // lighter one, so the first covering index cannot shrink.
                assert(t1 <= t2) by {
                    if t2 < t1 {
                        assert(tiers[t2].max_weight >= w2);
                        assert(tier_pred(w1)(tiers[t2]));
                        assert(false);
                    }
                }
                assert(region_prices_regular(regions[ri]));
                if t1 < t2 {
                    assert(tiers[t1].price <= tiers[t2].price);
                }
            }
        }
    }
}

/// Law: shipping resolution is a pure function of its arguments; any two
/// results computed from identical inputs are identical, including
/// identical errors.
pub proof fn lemma_calculate_deterministic(
    tables: Seq<CountryTable>,
    country: Seq<char>,
    postcode: Seq<char>,
    total_weight: u64,
    total_order: u64,
    r1: Result<u64, ShippingError>,
    r2: Result<u64, ShippingError>,
)
    requires
        r1 == spec_calculate(tables, country, postcode, total_weight, total_order),
        r2 == spec_calculate(tables, country, postcode, total_weight, total_order),
    ensures
        r1 == r2,
{
}

/// Whether one of the region's patterns matches the postal code, or the
/// region is unconditional.
fn region_matches_exec(r: &Region, postcode: &str) -> (b: bool)
    ensures
        b == region_matches(*r, postcode@),
{
    let n = r.patterns.len();
    if n == 0 {
        return true;
    }
    let mut i: usize = 0;
    while i < n
        invariant
            0 <= i <= n,
            n == r.patterns@.len(),
            forall|t: int| 0 <= t < i ==> !pattern_matches(r.patterns@[t]@, postcode@),
        decreases n - i,
    {
        if regex_is_match(r.patterns[i].as_str(), postcode) {
            return true;
        }
        i += 1;
    }
    false
}

/// Index of the first table for `country`; `tables.len()` when absent.
fn find_country(tables: &Vec<CountryTable>, country: &str) -> (r: usize)
    ensures
        r == first_where(tables@, country_pred(country@), 0),
        r <= tables@.len(),
{
    let n = tables.len();
    let mut i: usize = 0;
    while i < n
        invariant
            0 <= i <= n,
            n == tables@.len(),
            forall|t: int| 0 <= t < i ==> !((#[trigger] tables@[t]).country@ == country@),
        decreases n - i,
    {
        if str_eq(tables[i].country.as_str(), country) {
            proof {
                lemma_first_where_is(tables@, country_pred(country@), 0, i as int);
            }
            return i;
        }
        i += 1;
    }
    proof {
        lemma_first_where_is(tables@, country_pred(country@), 0, n as int);
    }
    n
}

/// Index of the first region matching `postcode`; `regions.len()` when none.
fn find_region(regions: &Vec<Region>, postcode: &str) -> (r: usize)
    ensures
        r == first_where(regions@, region_pred(postcode@), 0),
        r <= regions@.len(),
{
    let n = regions.len();
    let mut i: usize = 0;
    while i < n
        invariant
            0 <= i <= n,
            n == regions@.len(),
            forall|t: int| 0 <= t < i ==> !region_matches(#[trigger] regions@[t], postcode@),
        decreases n - i,
    {
        if region_matches_exec(&regions[i], postcode) {
            proof {
                lemma_first_where_is(
                    regions@,
                    region_pred(postcode@),
                    0,
                    i as int,
                );
            }
            return i;
        }
        i += 1;
    }
    proof {
        lemma_first_where_is(regions@, region_pred(postcode@), 0, n as int);
    }
    n
}

/// Index of the first tier covering `total_weight`; `tiers.len()` when none.
fn find_tier(tiers: &Vec<Tier>, total_weight: u64) -> (r: usize)
    ensures
        r == first_where(tiers@, tier_pred(total_weight), 0),
        r <= tiers@.len(),
{
    let n = tiers.len();
    let mut i: usize = 0;
    while i < n
        invariant
            0 <= i <= n,
            n == tiers@.len(),
            forall|t: int| 0 <= t < i ==> !((#[trigger] tiers@[t]).max_weight >= total_weight),
        decreases n - i,
    {
        if tiers[i].max_weight >= total_weight {
            proof {
                lemma_first_where_is(tiers@, tier_pred(total_weight), 0, i as int);
            }
            return i;
        }
        i += 1;
    }
    proof {
        lemma_first_where_is(tiers@, tier_pred(total_weight), 0, n as int);
    }
    n
}

impl Shipping {
    /// A resolver over the given tables.
    pub fn new(tables: Vec<CountryTable>) -> (s: Shipping)
        ensures
            s.tables == tables,
    {
        Shipping { tables }
    }

    /// The shipping charge, in cents, for the destination and totals, or
    /// the reason none could be resolved. A pure function of the resolver's
    /// tables and the four arguments.
    pub fn calculate(
        &self,
        country: &str,
        postcode: &str,
        total_weight: u64,
        total_order: u64,
    ) -> (r: Result<u64, ShippingError>)
        ensures
            r == spec_calculate(self.tables@, country@, postcode@, total_weight, total_order),
    {
        let ci = find_country(&self.tables, country);
        if ci == self.tables.len() {
            return Err(ShippingError::CountryNotFound);
        }
        let regions = &self.tables[ci].regions;
        let ri = find_region(regions, postcode);
        if ri == regions.len() {
            return Err(ShippingError::PostcodeNotMatched);
        }
        let region = &regions[ri];
        if total_order >= region.free_shipping {
            return Ok(0);
        }
        let ti = find_tier(&region.tiers, total_weight);
        if ti == region.tiers.len() {
            return Err(ShippingError::NoPriceForWeight);
        }
        Ok(region.tiers[ti].price)
    }
}

/// Five ascending weight tiers at 1000 g steps with the given prices.
fn standard_tiers(p1: u64, p2: u64, p3: u64, p4: u64, p5: u64) -> (t: Vec<Tier>)
    requires
        1 <= p1 <= p2 <= p3 <= p4 <= p5 <= SHIPPING_PRICE_CAP,
    ensures
        forall|k: int| 0 <= k < t@.len() ==> (#[trigger] t@[k]).price <= SHIPPING_PRICE_CAP,
        forall|k: int| 0 <= k < t@.len() ==> 1 <= (#[trigger] t@[k]).price,
        forall|k: int, l: int|
            0 <= k < l < t@.len() ==> t@[k].max_weight <= t@[l].max_weight,
        forall|k: int, l: int| 0 <= k < l < t@.len() ==> t@[k].price <= t@[l].price,
        t@.len() == 5,
        t@[0] == (Tier { max_weight: 1000, price: p1 }),
        t@[1] == (Tier { max_weight: 2000, price: p2 }),
        t@[2] == (Tier { max_weight: 3000, price: p3 }),
        t@[3] == (Tier { max_weight: 4000, price: p4 }),
        t@[4] == (Tier { max_weight: 5000, price: p5 }),
{
    let mut t: Vec<Tier> = Vec::new();
    t.push(Tier { max_weight: 1000, price: p1 });
    t.push(Tier { max_weight: 2000, price: p2 });
    t.push(Tier { max_weight: 3000, price: p3 });
    t.push(Tier { max_weight: 4000, price: p4 });
    t.push(Tier { max_weight: 5000, price: p5 });
    t
}

/// The built-in rate tables: Portugal split into mainland, Madeira and
/// Azores by postal-code pattern, and Spain as a single nationwide region
/// that matches any postal code. Prices are cents, weights grams,
/// free-shipping thresholds cents; the ensures pins every region's
/// patterns and weight tiers.
pub fn standard_tables() -> (t: Vec<CountryTable>)
    ensures
        tables_wf(t@),
        tables_prices_regular(t@),
        t@.len() == 2,
        t@[0].country@ == "PT"@,
        t@[1].country@ == "ES"@,
        t@[0].regions@.len() == 3,
        t@[1].regions@.len() == 1,
        t@[0].regions@[0].label@ == "mainland"@,
        t@[0].regions@[1].label@ == "madeira"@,
        t@[0].regions@[2].label@ == "acores"@,
        t@[1].regions@[0].label@ == "mainland"@,
        t@[0].regions@[0].free_shipping == 10_000,
        t@[0].regions@[1].free_shipping == 20_000,
        t@[0].regions@[2].free_shipping == 30_000,
        t@[1].regions@[0].free_shipping == 10_000,
        t@[0].regions@[0].patterns@.len() == 1,
        t@[0].regions@[0].patterns@[0]@ == "^[12345678]\\d+"@,
        t@[0].regions@[1].patterns@.len() == 1,
        t@[0].regions@[1].patterns@[0]@ == "^9[01234]\\d+"@,
        t@[0].regions@[2].patterns@.len() == 1,
        t@[0].regions@[2].patterns@[0]@ == "^9[56789]\\d+"@,
        t@[1].regions@[0].patterns@.len() == 0,
        t@[0].regions@[0].tiers@.len() == 5,
        t@[0].regions@[0].tiers@[0] == (Tier { max_weight: 1000, price: 490 }),
        t@[0].regions@[0].tiers@[1] == (Tier { max_weight: 2000, price: 830 }),
        t@[0].regions@[0].tiers@[2] == (Tier { max_weight: 3000, price: 1270 }),
        t@[0].regions@[0].tiers@[3] == (Tier { max_weight: 4000, price: 1710 }),
        t@[0].regions@[0].tiers@[4] == (Tier { max_weight: 5000, price: 2150 }),
        t@[0].regions@[1].tiers@.len() == 5,
        t@[0].regions@[1].tiers@[0] == (Tier { max_weight: 1000, price: 590 }),
        t@[0].regions@[1].tiers@[1] == (Tier { max_weight: 2000, price: 930 }),
        t@[0].regions@[1].tiers@[2] == (Tier { max_weight: 3000, price: 1370 }),
        t@[0].regions@[1].tiers@[3] == (Tier { max_weight: 4000, price: 1810 }),
        t@[0].regions@[1].tiers@[4] == (Tier { max_weight: 5000, price: 2250 }),
        t@[0].regions@[2].tiers@.len() == 5,
        t@[0].regions@[2].tiers@[0] == (Tier { max_weight: 1000, price: 690 }),
        t@[0].regions@[2].tiers@[1] == (Tier { max_weight: 2000, price: 1030 }),
        t@[0].regions@[2].tiers@[2] == (Tier { max_weight: 3000, price: 1470 }),
        t@[0].regions@[2].tiers@[3] == (Tier { max_weight: 4000, price: 1910 }),
        t@[0].regions@[2].tiers@[4] == (Tier { max_weight: 5000, price: 2350 }),
        t@[1].regions@[0].tiers@.len() == 5,
        t@[1].regions@[0].tiers@[0] == (Tier { max_weight: 1000, price: 790 }),
        t@[1].regions@[0].tiers@[1] == (Tier { max_weight: 2000, price: 1130 }),
        t@[1].regions@[0].tiers@[2] == (Tier { max_weight: 3000, price: 1570 }),
        t@[1].regions@[0].tiers@[3] == (Tier { max_weight: 4000, price: 2010 }),
        t@[1].regions@[0].tiers@[4] == (Tier { max_weight: 5000, price: 2450 }),
{
    let mut pt_mainland_patterns: Vec<String> = Vec::new();
    pt_mainland_patterns.push("^[12345678]\\d+".to_owned());
    let mut pt_madeira_patterns: Vec<String> = Vec::new();
    pt_madeira_patterns.push("^9[01234]\\d+".to_owned());
    let mut pt_acores_patterns: Vec<String> = Vec::new();
    pt_acores_patterns.push("^9[56789]\\d+".to_owned());

    let pt_mainland = Region {
        label: "mainland".to_owned(),
        patterns: pt_mainland_patterns,
        tiers: standard_tiers(490, 830, 1270, 1710, 2150),
        free_shipping: 10_000,
    };
    let pt_madeira = Region {
        label: "madeira".to_owned(),
        patterns: pt_madeira_patterns,
        tiers: standard_tiers(590, 930, 1370, 1810, 2250),
        free_shipping: 20_000,
    };
    let pt_acores = Region {
        label: "acores".to_owned(),
        patterns: pt_acores_patterns,
        tiers: standard_tiers(690, 1030, 1470, 1910, 2350),
        free_shipping: 30_000,
    };
    let es_mainland = Region {
        label: "mainland".to_owned(),
        patterns: Vec::new(),
        tiers: standard_tiers(790, 1130, 1570, 2010, 2450),
        free_shipping: 10_000,
    };

    assert(region_wf(pt_mainland));
    assert(region_wf(pt_madeira));
    assert(region_wf(pt_acores));
    assert(region_wf(es_mainland));
    assert(region_prices_regular(pt_mainland));
    assert(region_prices_regular(pt_madeira));
    assert(region_prices_regular(pt_acores));
    assert(region_prices_regular(es_mainland));

    let mut pt_regions: Vec<Region> = Vec::new();
    pt_regions.push(pt_mainland);
    pt_regions.push(pt_madeira);
    pt_regions.push(pt_acores);
    let mut es_regions: Vec<Region> = Vec::new();
    es_regions.push(es_mainland);

    let mut t: Vec<CountryTable> = Vec::new();
    t.push(CountryTable { country: "PT".to_owned(), regions: pt_regions });
    t.push(CountryTable { country: "ES".to_owned(), regions: es_regions });
    t
}

} // verus!
