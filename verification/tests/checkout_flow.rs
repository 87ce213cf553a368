//! The checkout pipeline: estimates, refusals and full order assembly.

use storefront::cart::Cart;
use storefront::cart::CatalogItem;
use storefront::checkout::CheckoutOutcome;
use storefront::checkout::RawOrder;
use storefront::checkout::place_order;
use storefront::media::Media;
use storefront::orders::Currency;
use storefront::orders::OrderStatus;
use storefront::shipping::Shipping;
use storefront::shipping::ShippingError;
use storefront::shipping::standard_tables;

fn item(id: i32, price: u64, regular: u64, stock: i32, weight: u64) -> CatalogItem {
    CatalogItem {
        id,
        name: format!("product {}", id),
        sku: format!("SKU-{}", id),
        price,
        regular_price: regular,
        stock_quantity: stock,
        weight,
        permalink: format!("/product/{}", id),
        image: Media::default(),
    }
}

fn payload(country: &str, postcode: &str, estimate: bool) -> RawOrder {
    RawOrder {
        billing_first_name: "Ana".to_string(),
        billing_last_name: "Silva".to_string(),
        email: "ana@example.test".to_string(),
        phone: "912345678".to_string(),
        billing_address: "Rua Um 1".to_string(),
        billing_postcode: postcode.to_string(),
        billing_city: "Lisboa".to_string(),
        billing_country: country.to_string(),
        tax_id_number: None,
        ship_to_different_address: None,
        shipping_first_name: "Ana".to_string(),
        shipping_last_name: "Silva".to_string(),
        shipping_address: "Rua Um 1".to_string(),
        shipping_postcode: postcode.to_string(),
        shipping_city: "Lisboa".to_string(),
        shipping_country: country.to_string(),
        terms: Some(true),
        payment_method: "bacs".to_string(),
        order_comments: Some("leave at the door".to_string()),
        calculate_shipping: if estimate { Some(true) } else { None },
    }
}

fn resolver() -> Shipping {
    Shipping::new(standard_tables())
}

#[test]
fn placing_with_empty_cart_places_no_order() {
    let mut cart = Cart::new();
    let r = place_order(
        &mut cart,
        vec![],
        payload("PT", "1000-100", false),
        &resolver(),
        23,
        true,
        "127.0.0.1".to_string(),
        "test-agent".to_string(),
    );
    assert!(matches!(r, CheckoutOutcome::EmptyCart));
}

#[test]
fn placing_with_only_out_of_stock_lines_places_no_order() {
    let mut cart = Cart::new();
    cart.set_quantity(1, 2);
    let r = place_order(
        &mut cart,
        vec![item(1, 1_000, 1_230, 0, 100)],
        payload("PT", "1000-100", false),
        &resolver(),
        23,
        true,
        "127.0.0.1".to_string(),
        "test-agent".to_string(),
    );
    assert!(matches!(r, CheckoutOutcome::EmptyCart));
}

#[test]
fn estimate_probe_prices_without_placing() {
    let mut cart = Cart::new();
    cart.set_quantity(1, 2);
    let r = place_order(
        &mut cart,
        vec![item(1, 1_000, 1_230, 5, 100)],
        payload("PT", "1000-100", true),
        &resolver(),
        23,
        true,
        "127.0.0.1".to_string(),
        "test-agent".to_string(),
    );
    match r {
        CheckoutOutcome::Estimate { lines, shipping } => {
            assert_eq!(lines.len(), 1);
            assert_eq!(lines[0].quantity, 2);
            assert_eq!(shipping, Ok(490));
        },
        _ => panic!("expected an estimate"),
    }
    // The estimate did not clear the cart.
    assert_eq!(cart.get(1), Some(2));
}

#[test]
fn estimate_probe_survives_shipping_failure() {
    let mut cart = Cart::new();
    cart.set_quantity(1, 2);
    let r = place_order(
        &mut cart,
        vec![item(1, 1_000, 1_230, 5, 100)],
        payload("FR", "75001", true),
        &resolver(),
        23,
        true,
        "127.0.0.1".to_string(),
        "test-agent".to_string(),
    );
    match r {
        CheckoutOutcome::Estimate { lines, shipping } => {
            assert_eq!(lines.len(), 1);
            assert_eq!(shipping, Err(ShippingError::CountryNotFound));
        },
        _ => panic!("expected an estimate"),
    }
}

#[test]
fn placement_is_blocked_without_a_shipping_charge() {
    let mut cart = Cart::new();
    cart.set_quantity(1, 2);
    let r = place_order(
        &mut cart,
        vec![item(1, 1_000, 1_230, 5, 100)],
        payload("FR", "75001", false),
        &resolver(),
        23,
        true,
        "127.0.0.1".to_string(),
        "test-agent".to_string(),
    );
    match r {
        CheckoutOutcome::ShippingUnavailable { error } => {
            assert_eq!(error, ShippingError::CountryNotFound);
        },
        _ => panic!("expected a blocked placement"),
    }
}

#[test]
fn placed_order_carries_exact_amounts() {
    // Prices include tax at 23%: regular 12.30 EUR charged at the sale
    // price 10.00 EUR, two units. Per-unit tax times quantity:
    // subtotal_tax = (1230 - 1230*100/123) * 2 = 460,
    // total_tax = (1000 - 1000*100/123) * 2 = 374.
    let mut cart = Cart::new();
    cart.set_quantity(1, 2);
    let r = place_order(
        &mut cart,
        vec![item(1, 1_000, 1_230, 5, 100)],
        payload("PT", "1000-100", false),
        &resolver(),
        23,
        true,
        "10.0.0.7".to_string(),
        "test-agent".to_string(),
    );
    let order = match r {
        CheckoutOutcome::Place { order } => order,
        _ => panic!("expected a placed order"),
    };
    assert_eq!(order.line_items.len(), 1);
    let li = &order.line_items[0];
    assert_eq!(li.product_id, 1);
    assert_eq!(li.quantity, 2);
    assert_eq!(li.subtotal, 2_460);
    assert_eq!(li.total, 2_000);
    assert_eq!(li.subtotal_tax, 460);
    assert_eq!(li.total_tax, 374);
    assert_eq!(order.discount_total, 460);
    assert_eq!(order.discount_tax, 86);
    assert_eq!(order.cart_tax, 374);
    // 200 g at an order value of 20.00 EUR: mainland tier one, 4.90 EUR;
    // its backed-out tax component is 490 - 490*100/123 = 92.
    assert_eq!(order.shipping_items.len(), 1);
    assert_eq!(order.shipping_items[0].total, 490);
    assert_eq!(order.shipping_items[0].total_tax, 92);
    assert_eq!(order.shipping_total, 490);
    assert_eq!(order.shipping_tax, 92);
    assert_eq!(order.total, 2_490);
    assert_eq!(order.total_tax, 466);
    assert!(order.prices_include_tax);
    assert_eq!(order.currency, Currency::EUR);
    assert_eq!(order.status, OrderStatus::OnHold);
    assert_eq!(order.payment_method, "bacs");
    assert_eq!(order.payment_method_title, "Direct Bank Transfer");
    assert_eq!(order.order_key, "order_58d2d042d1d");
    assert_eq!(order.customer_ip_address, "10.0.0.7");
    assert_eq!(order.customer_user_agent, "test-agent");
    assert_eq!(order.billing.first_name, "Ana");
    assert_eq!(order.billing.country_code, "PT");
    assert_eq!(order.billing.tax_id_number, "");
    assert_eq!(order.shipping.postcode, "1000-100");
    assert_eq!(order.customer_note, "leave at the door");
    assert_eq!(order.cart_hash, "");
    // Placement itself leaves the cart to the caller: it is cleared only
    // after the order is durably written.
    assert_eq!(cart.get(1), Some(2));
    cart.reset();
    assert!(cart.is_empty());
}

#[test]
fn free_shipping_order_keeps_totals_consistent() {
    // 120.00 EUR of goods: over the threshold, shipping is free and the
    // whole-order invariant still holds.
    let mut cart = Cart::new();
    cart.set_quantity(1, 2);
    let r = place_order(
        &mut cart,
        vec![item(1, 6_000, 6_000, 5, 100)],
        payload("PT", "1000-100", false),
        &resolver(),
        23,
        true,
        "127.0.0.1".to_string(),
        "test-agent".to_string(),
    );
    let order = match r {
        CheckoutOutcome::Place { order } => order,
        _ => panic!("expected a placed order"),
    };
    assert_eq!(order.shipping_total, 0);
    assert_eq!(order.shipping_tax, 0);
    assert_eq!(order.discount_total, 0);
    let line_sum: u64 = order.line_items.iter().map(|l| l.total).sum();
    let ship_sum: u64 = order.shipping_items.iter().map(|s| s.total).sum();
    assert_eq!(order.total, line_sum + ship_sum);
    let line_tax: u64 = order.line_items.iter().map(|l| l.total_tax).sum();
    let ship_tax: u64 = order.shipping_items.iter().map(|s| s.total_tax).sum();
    assert_eq!(order.total_tax, line_tax + ship_tax);
}

#[test]
fn exclusive_tax_is_added_on_top() {
    // With prices-exclude-tax the tax component is price * rate / 100.
    let mut cart = Cart::new();
    cart.set_quantity(1, 1);
    let r = place_order(
        &mut cart,
        vec![item(1, 1_000, 1_000, 5, 100)],
        payload("PT", "1000-100", false),
        &resolver(),
        23,
        false,
        "127.0.0.1".to_string(),
        "test-agent".to_string(),
    );
    let order = match r {
        CheckoutOutcome::Place { order } => order,
        _ => panic!("expected a placed order"),
    };
    assert_eq!(order.line_items[0].total_tax, 230);
    assert_eq!(order.shipping_items[0].total_tax, 112);
}
