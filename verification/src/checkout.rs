//! Checkout: the per-request pipeline. It resolves the cart against live
//! catalog rows, recomputes shipping from the submitted address (never
//! trusting a client-supplied charge), and either returns a priced
//! estimate, refuses placement, or assembles the immutable order record
//! that the caller persists. Only on a successful persistence does the
//! caller clear the cart.

use vstd::prelude::*;
use crate::cart::Cart;
use crate::cart::CatalogItem;
use crate::cart::Product;
use crate::cart::items_ok;
use crate::cart::resolved_line;
use crate::cart::resolved_qty;
use crate::cart::sum_weight;
use crate::cart::sum_value;
use crate::cart::zero_stock_ids;
use crate::cart::MAX_CART_LINES;
use crate::cart::PRICE_CENTS_CAP;
use crate::cart::QTY_CAP;
use crate::money::calc_tax_value;
use crate::money::spec_tax;
use crate::money::lemma_tax_bounds;
use crate::money::lemma_tax_monotone;
use crate::money::TAX_RATE_CAP;
use crate::orders::Billing;
use crate::orders::Currency;
use crate::orders::LineItem;
use crate::orders::Order;
use crate::orders::OrderStatus;
use crate::orders::ShippingLine;
use crate::orders::order_wf;
use crate::orders::sum_line_totals;
use crate::orders::sum_line_total_tax;
use crate::orders::sum_line_subtotals;
use crate::orders::sum_line_subtotal_tax;
use crate::orders::sum_ship_totals;
use crate::orders::sum_ship_total_tax;
use crate::shipping::Shipping;
use crate::shipping::ShippingError;
use crate::shipping::spec_calculate;
use crate::shipping::tables_wf;
use crate::shipping::lemma_calculate_price_bounded;
use crate::shipping::SHIPPING_PRICE_CAP;

verus! {

/// The checkout form, its field names kept verbatim from the request
/// contract.
#[derive(Debug)]
pub struct RawOrder {
    pub billing_first_name: String,
    pub billing_last_name: String,
    pub email: String,
    pub phone: String,
    pub billing_address: String,
    pub billing_postcode: String,
    pub billing_city: String,
    pub billing_country: String,
    pub tax_id_number: Option<String>,
    pub ship_to_different_address: Option<bool>,
    pub shipping_first_name: String,
    pub shipping_last_name: String,
    pub shipping_address: String,
    pub shipping_postcode: String,
    pub shipping_city: String,
    pub shipping_country: String,
    pub terms: Option<bool>,
    pub payment_method: String,
    pub order_comments: Option<String>,
    pub calculate_shipping: Option<bool>,
}

/// What one checkout submission produced.
#[derive(Debug)]
pub enum CheckoutOutcome {
    /// The cart held nothing, or resolved to nothing; no order is placed.
    EmptyCart,
    /// A shipping-estimate probe: the priced lines and the shipping
    /// resolution, whose failure degrades the preview without aborting it.
    Estimate { lines: Vec<Product>, shipping: Result<u64, ShippingError> },
    /// Placement blocked: no order without a resolved shipping charge.
    ShippingUnavailable { error: ShippingError },
    /// The assembled order, ready for the single durable write.
    Place { order: Order },
}

/// The lines one resolution yields from a quantity map and catalog rows.
pub open spec fn spec_resolved_lines(m: Map<i32, i32>, items: Seq<CatalogItem>) -> Seq<Product> {
    Seq::new(items.len(), |i: int| resolved_line(items[i], resolved_qty(m, items[i])))
}

/// A resolved cart is empty when no line carries a positive quantity.
pub open spec fn lines_empty(lines: Seq<Product>) -> bool {
    forall|i: int| 0 <= i < lines.len() ==> (#[trigger] lines[i]).quantity <= 0
}

/// The line item a resolved line yields under the tax policy: tax is
/// computed on the unit price and multiplied by the quantity afterwards,
/// the subtotal comes from the regular price, the total from the charged
/// price.
pub open spec fn spec_line_item(p: Product, rate: u32, include_tax: bool) -> LineItem {
    LineItem {
        product_id: p.id,
        sku: p.sku,
        name: p.name,
        price: p.price,
        quantity: p.quantity,
        subtotal: (p.regular_price as int * p.quantity as int) as u64,
        subtotal_tax: (spec_tax(p.regular_price as int, rate as int, include_tax)
            * p.quantity as int) as u64,
        total: (p.price as int * p.quantity as int) as u64,
        total_tax: (spec_tax(p.price as int, rate as int, include_tax) * p.quantity as int) as u64,
    }
}

/// The order a placement assembles: addresses from the form, one line item
/// per resolved line, one shipping line, and fixed payment metadata.
pub open spec fn order_matches(
    o: Order,
    lines: Seq<Product>,
    ship: u64,
    rate: u32,
    include_tax: bool,
    payload: RawOrder,
    client_ip: String,
    user_agent: String,
) -> bool {
    &&& o.order_key@ == "order_58d2d042d1d"@
    &&& o.customer_ip_address == client_ip
    &&& o.customer_user_agent == user_agent
    &&& o.billing.first_name == payload.billing_first_name
    &&& o.billing.last_name == payload.billing_last_name
    &&& o.billing.email == payload.email
    &&& o.billing.phone == payload.phone
    &&& o.billing.address == payload.billing_address
    &&& o.billing.postcode == payload.billing_postcode
    &&& o.billing.city == payload.billing_city
    &&& o.billing.country_code == payload.billing_country
    &&& (payload.tax_id_number matches Some(v) ==> o.billing.tax_id_number == v)
    &&& (payload.tax_id_number is None ==> o.billing.tax_id_number@ == Seq::<char>::empty())
    &&& o.shipping.first_name == payload.shipping_first_name
    &&& o.shipping.last_name == payload.shipping_last_name
    &&& o.shipping.address == payload.shipping_address
    &&& o.shipping.postcode == payload.shipping_postcode
    &&& o.shipping.city == payload.shipping_city
    &&& o.shipping.country_code == payload.shipping_country
    &&& o.line_items@.len() == lines.len()
    &&& (forall|i: int|
        0 <= i < lines.len() ==> #[trigger] o.line_items@[i] == spec_line_item(
            lines[i],
            rate,
            include_tax,
        ))
    &&& o.shipping_items@.len() == 1
    &&& o.shipping_items@[0] == (ShippingLine {
        total: ship,
        total_tax: spec_tax(ship as int, rate as int, include_tax) as u64,
    })
    &&& o.payment_method@ == "bacs"@
    &&& o.payment_method_title@ == "Direct Bank Transfer"@
    &&& o.currency == Currency::EUR
    &&& o.prices_include_tax == include_tax
    &&& (payload.order_comments matches Some(v) ==> o.customer_note == v)
    &&& (payload.order_comments is None ==> o.customer_note@ == Seq::<char>::empty())
    &&& o.status == OrderStatus::OnHold
    &&& o.cart_hash@ == Seq::<char>::empty()
}

/// Whether any line carries a positive quantity.
fn any_positive(lines: &Vec<Product>) -> (b: bool)
    ensures
        b == !lines_empty(lines@),
{
    let n = lines.len();
    let mut k: usize = 0;
    while k < n
        invariant
            0 <= k <= n,
            n == lines@.len(),
            forall|t: int| 0 <= t < k ==> (#[trigger] lines@[t]).quantity <= 0,
        decreases n - k,
    {
        if lines[k].quantity > 0 {
            return true;
        }
        k += 1;
    }
    false
}

/// One checkout submission. An empty cart short-circuits; the
/// `calculate_shipping` flag makes the request a shipping-estimate probe
/// that never places an order; a placement requires a non-empty resolved
/// cart and a resolved shipping charge, and returns the assembled order
/// for the caller to persist. The cart map loses its out-of-stock entries
/// (as every resolution does); the caller clears it only after the order
/// is durably written.
///
/// The caps demanded of the catalog rows, the rate and the tables keep
/// every aggregate within `u64` cents; a charged price never exceeding the
/// regular price is the line-item invariant (a total never exceeds its
/// subtotal).
pub fn place_order(
    cart: &mut Cart,
    items: Vec<CatalogItem>,
    payload: RawOrder,
    shipping_resolver: &Shipping,
    tax_rate: u32,
    prices_include_tax: bool,
    client_ip: String,
    user_agent: String,
) -> (r: CheckoutOutcome)
    requires
        old(cart).wf(),
        items_ok(items@),
        forall|i: int|
            0 <= i < items@.len() ==> (#[trigger] items@[i]).price <= items@[i].regular_price,
        tax_rate <= TAX_RATE_CAP,
        tables_wf(shipping_resolver.tables@),
    ensures
        final(cart).wf(),
        final(cart).contents() == old(cart).contents().remove_keys(zero_stock_ids(items@)),
        ({
            let rl = spec_resolved_lines(old(cart).contents(), items@);
            let ship = spec_calculate(
                shipping_resolver.tables@,
                payload.shipping_country@,
                payload.shipping_postcode@,
                sum_weight(rl) as u64,
                sum_value(rl) as u64,
            );
            let raw_empty = old(cart).entry_seq().len() == 0;
            &&& (raw_empty ==> r is EmptyCart && *final(cart) == *old(cart))
            &&& (!raw_empty ==> final(cart).total_weight as int == sum_weight(rl)
                && final(cart).total_order as int == sum_value(rl))
            &&& (!raw_empty && payload.calculate_shipping is Some ==> (r matches
                CheckoutOutcome::Estimate { lines: l, shipping: sr } && l@ == rl && sr == ship))
            &&& (!raw_empty && payload.calculate_shipping is None && lines_empty(rl)
                ==> r is EmptyCart)
            &&& (!raw_empty && payload.calculate_shipping is None && !lines_empty(rl)
                && ship is Err ==> (r matches CheckoutOutcome::ShippingUnavailable { error }
                && Err::<u64, ShippingError>(error) == ship))
            &&& (!raw_empty && payload.calculate_shipping is None && !lines_empty(rl)
                && ship is Ok ==> (r matches CheckoutOutcome::Place { order } && (ship matches Ok(
                s,
            ) && order_matches(
                order,
                rl,
                s,
                tax_rate,
                prices_include_tax,
                payload,
                client_ip,
                user_agent,
            ) && order_wf(order))))
        }),
{
    let ghost m0 = cart.contents();
    if cart.is_empty() {
        proof {
            assert(cart.entry_seq() =~= Seq::<(i32, i32)>::empty());
            assert(m0.remove_keys(zero_stock_ids(items@)) =~= m0);
        }
        return CheckoutOutcome::EmptyCart;
    }
    let lines = cart.resolve(items);
    proof {
        assert(lines@ =~= spec_resolved_lines(m0, items@));
        assert forall|i: int| 0 <= i < lines@.len() implies {
            let p = #[trigger] lines@[i];
            &&& 0 <= p.quantity <= QTY_CAP
            &&& p.price <= p.regular_price <= PRICE_CENTS_CAP
        } by {
            assert(lines@[i] == resolved_line(items@[i], resolved_qty(m0, items@[i])));
            assert(0 <= items@[i].stock_quantity <= QTY_CAP && items@[i].price <= PRICE_CENTS_CAP
                && items@[i].regular_price <= PRICE_CENTS_CAP);
        }
    }
    let total_weight = cart.total_weight;
    let total_order = cart.total_order;
    let ship_result = shipping_resolver.calculate(
        payload.shipping_country.as_str(),
        payload.shipping_postcode.as_str(),
        total_weight,
        total_order,
    );
    if payload.calculate_shipping.is_some() {
        return CheckoutOutcome::Estimate { lines, shipping: ship_result };
    }
    if !any_positive(&lines) {
        return CheckoutOutcome::EmptyCart;
    }
    match ship_result {
        Err(error) => CheckoutOutcome::ShippingUnavailable { error },
        Ok(ship) => {
            proof {
                lemma_calculate_price_bounded(
                    shipping_resolver.tables@,
                    payload.shipping_country@,
                    payload.shipping_postcode@,
                    total_weight,
                    total_order,
                );
                assert(ship <= SHIPPING_PRICE_CAP);
            }
            let ghost lv = lines@;
            let mut lrest = lines;
            let n = lrest.len();
            let mut line_items: Vec<LineItem> = Vec::new();
            let mut discount_total: u64 = 0;
            let mut discount_tax: u64 = 0;
            let mut total: u64 = 0;
            let mut total_tax: u64 = 0;
            let mut cart_tax: u64 = 0;
            let mut k: usize = 0;
            proof {
                assert(lrest@ =~= lv.subrange(0, n as int));
            }
            while k < n
                invariant
                    0 <= k <= n,
                    n == lv.len(),
                    n <= MAX_CART_LINES,
                    lrest@ == lv.subrange(k as int, n as int),
                    tax_rate <= TAX_RATE_CAP,
                    forall|i: int|
                        0 <= i < lv.len() ==> {
                            let p = #[trigger] lv[i];
                            &&& 0 <= p.quantity <= QTY_CAP
                            &&& p.price <= p.regular_price <= PRICE_CENTS_CAP
                        },
                    line_items@.len() == k,
                    forall|i: int|
                        0 <= i < k ==> #[trigger] line_items@[i] == spec_line_item(
                            lv[i],
                            tax_rate,
                            prices_include_tax,
                        ),
                    forall|i: int|
                        0 <= i < k ==> (#[trigger] line_items@[i]).total <= line_items@[
                            i
                        ].subtotal,
                    total as int == sum_line_totals(line_items@),
                    total_tax as int == sum_line_total_tax(line_items@),
                    cart_tax as int == sum_line_total_tax(line_items@),
                    discount_total as int == sum_line_subtotals(line_items@) - sum_line_totals(
                        line_items@,
                    ),
                    discount_tax as int == sum_line_subtotal_tax(line_items@)
                        - sum_line_total_tax(line_items@),
                    total <= k as int * 100_000_000_000_000int,
                    discount_total <= k as int * 100_000_000_000_000int,
                    total_tax <= k as int * 1_000_000_000_000_000int,
                    cart_tax <= k as int * 1_000_000_000_000_000int,
                    discount_tax <= k as int * 1_000_000_000_000_000int,
                decreases n - k,
            {
                let p = lrest.remove(0);
                proof {
                    assert(p == lv[k as int]);
                    assert(lrest@ =~= lv.subrange(k as int + 1, n as int));
                }
                let qu = p.quantity as u64;
                proof {
                    assert(p.regular_price as int * qu as int <= 100_000_000_000_000int)
                        by (nonlinear_arith)
                        requires
                            0 <= p.regular_price as int <= 1_000_000_000int,
                            0 <= qu as int <= 100_000int,
                    ;
                    assert(p.price as int * qu as int <= p.regular_price as int * qu as int)
                        by (nonlinear_arith)
                        requires
                            0 <= p.price as int <= p.regular_price as int,
                            0 <= qu as int,
                    ;
                }
                let subtotal = p.regular_price * qu;
                let unit_sub_tax = calc_tax_value(p.regular_price, tax_rate, prices_include_tax);
                proof {
                    lemma_tax_bounds(p.regular_price as int, tax_rate as int, prices_include_tax);
                    assert(unit_sub_tax as int * qu as int <= 10_000_000_000int * 100_000int)
                        by (nonlinear_arith)
                        requires
                            0 <= unit_sub_tax as int <= 10_000_000_000int,
                            0 <= qu as int <= 100_000int,
                    ;
                }
                let subtotal_tax = unit_sub_tax * qu;
                let total_line = p.price * qu;
                let unit_tot_tax = calc_tax_value(p.price, tax_rate, prices_include_tax);
                proof {
                    lemma_tax_bounds(p.price as int, tax_rate as int, prices_include_tax);
                    lemma_tax_monotone(
                        p.price as int,
                        p.regular_price as int,
                        tax_rate as int,
                        prices_include_tax,
                    );
                    assert(unit_tot_tax as int * qu as int <= unit_sub_tax as int * qu as int)
                        by (nonlinear_arith)
                        requires
                            0 <= unit_tot_tax as int <= unit_sub_tax as int,
                            0 <= qu as int,
                    ;
                }
                let total_tax_line = unit_tot_tax * qu;
                let li = LineItem {
                    product_id: p.id,
                    sku: p.sku,
                    name: p.name,
                    price: p.price,
                    quantity: p.quantity,
                    subtotal,
                    subtotal_tax,
                    total: total_line,
                    total_tax: total_tax_line,
                };
                proof {
                    assert(li == spec_line_item(lv[k as int], tax_rate, prices_include_tax));
                    assert(line_items@.push(li).drop_last() =~= line_items@);
                }
                discount_total = discount_total + (subtotal - total_line);
                discount_tax = discount_tax + (subtotal_tax - total_tax_line);
                total = total + total_line;
                total_tax = total_tax + total_tax_line;
                cart_tax = cart_tax + total_tax_line;
                line_items.push(li);
                k += 1;
            }
            let ship_tax = calc_tax_value(ship, tax_rate, prices_include_tax);
            proof {
                lemma_tax_bounds(ship as int, tax_rate as int, prices_include_tax);
            }
            let mut shipping_items: Vec<ShippingLine> = Vec::new();
            shipping_items.push(ShippingLine { total: ship, total_tax: ship_tax });
            proof {
                assert(shipping_items@.drop_last() =~= Seq::<ShippingLine>::empty());
                assert(shipping_items@.last() == (ShippingLine { total: ship, total_tax: ship_tax }));
                assert(sum_ship_totals(Seq::<ShippingLine>::empty()) == 0);
                assert(sum_ship_total_tax(Seq::<ShippingLine>::empty()) == 0);
                assert(sum_ship_totals(shipping_items@) == ship as int);
                assert(sum_ship_total_tax(shipping_items@) == ship_tax as int);
                reveal_strlit("");
                assert(""@ =~= Seq::<char>::empty());
            }
            let order = Order {
                order_key: "order_58d2d042d1d".to_owned(),
                customer_ip_address: client_ip,
                customer_user_agent: user_agent,
                billing: Billing {
                    first_name: payload.billing_first_name,
                    last_name: payload.billing_last_name,
                    address: payload.billing_address,
                    city: payload.billing_city,
                    postcode: payload.billing_postcode,
                    country_code: payload.billing_country,
                    email: payload.email,
                    phone: payload.phone,
                    tax_id_number: match payload.tax_id_number {
                        Some(v) => v,
                        None => "".to_owned(),
                    },
                },
                shipping: crate::orders::Shipping {
                    first_name: payload.shipping_first_name,
                    last_name: payload.shipping_last_name,
                    address: payload.shipping_address,
                    city: payload.shipping_city,
                    postcode: payload.shipping_postcode,
                    country_code: payload.shipping_country,
                },
                line_items,
                shipping_items,
                payment_method: "bacs".to_owned(),
                payment_method_title: "Direct Bank Transfer".to_owned(),
                currency: Currency::EUR,
                discount_total,
                discount_tax,
                shipping_total: ship,
                shipping_tax: ship_tax,
                cart_tax,
                total: total + ship,
                total_tax: total_tax + ship_tax,
                prices_include_tax,
                customer_note: match payload.order_comments {
                    Some(v) => v,
                    None => "".to_owned(),
                },
                status: OrderStatus::OnHold,
                cart_hash: "".to_owned(),
            };
            proof {
                assert(order_wf(order));
            }
            CheckoutOutcome::Place { order }
        },
    }
}

} // verus!
