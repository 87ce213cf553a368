//! Cart store operations and resolution against live catalog rows.

use storefront::cart::Cart;
use storefront::cart::CatalogItem;
use storefront::cart::ProductToCart;
use storefront::media::Media;

fn item(id: i32, price: u64, regular: u64, stock: i32, weight: u64) -> CatalogItem {
    CatalogItem {
        id,
        name: format!("product {}", id),
        sku: format!("SKU-{}", id),
        price,
        regular_price: regular,
        stock_quantity: stock,
        weight,
        permalink: format!("/product/{}", id),
        image: Media::default(),
    }
}

#[test]
fn add_accumulates_quantities() {
    let mut cart = Cart::new();
    cart.add(&ProductToCart { product_id: 5, product_quantity: 2 });
    cart.add(&ProductToCart { product_id: 5, product_quantity: 3 });
    assert_eq!(cart.get(5), Some(5));
}

#[test]
fn reset_clears_map_and_totals() {
    let mut cart = Cart::new();
    cart.add(&ProductToCart { product_id: 5, product_quantity: 2 });
    let _ = cart.resolve(vec![item(5, 1_000, 1_000, 10, 100)]);
    cart.reset();
    assert!(cart.is_empty());
    assert_eq!(cart.get(5), None);
    assert_eq!(cart.total_weight, 0);
    assert_eq!(cart.total_order, 0);
}

#[test]
fn resolve_removes_zero_stock_entry() {
    // A cart entry whose product went out of stock disappears from the
    // map, and its line contributes nothing to the totals.
    let mut cart = Cart::new();
    cart.set_quantity(1, 2);
    let lines = cart.resolve(vec![item(1, 1_000, 1_000, 0, 100)]);
    assert_eq!(lines.len(), 1);
    assert_eq!(lines[0].quantity, 0);
    assert_eq!(cart.get(1), None);
    assert!(cart.is_empty());
    assert_eq!(cart.total_weight, 0);
    assert_eq!(cart.total_order, 0);
}

#[test]
fn resolve_clamps_but_keeps_request() {
    // Requesting 10 of a product with live stock 3 resolves to 3, while
    // the stored request stays 10.
    let mut cart = Cart::new();
    cart.set_quantity(1, 10);
    let lines = cart.resolve(vec![item(1, 500, 500, 3, 200)]);
    assert_eq!(lines[0].quantity, 3);
    assert_eq!(cart.get(1), Some(10));
    assert_eq!(cart.total_weight, 600);
    assert_eq!(cart.total_order, 1_500);
}

#[test]
fn resolve_negative_request_clamps_to_zero() {
    let mut cart = Cart::new();
    cart.set_quantity(1, -5);
    let lines = cart.resolve(vec![item(1, 500, 500, 10, 200)]);
    assert_eq!(lines[0].quantity, 0);
    assert_eq!(cart.total_weight, 0);
    assert_eq!(cart.total_order, 0);
}

#[test]
fn resolve_totals_are_sums_over_lines() {
    let mut cart = Cart::new();
    cart.set_quantity(1, 2);
    cart.set_quantity(2, 1);
    let lines = cart.resolve(vec![
        item(1, 1_000, 1_200, 5, 100),
        item(2, 250, 250, 5, 40),
    ]);
    let weight: u64 = lines.iter().map(|l| l.weight * l.quantity as u64).sum();
    let value: u64 = lines.iter().map(|l| l.price * l.quantity as u64).sum();
    assert_eq!(cart.total_weight, weight);
    assert_eq!(cart.total_order, value);
    assert_eq!(weight, 240);
    assert_eq!(value, 2_250);
}

#[test]
fn resolve_keeps_entries_the_catalog_did_not_return() {
    // A product missing from the catalog result (deleted or unpublished)
    // yields no line but stays in the cart map.
    let mut cart = Cart::new();
    cart.set_quantity(1, 2);
    cart.set_quantity(9, 4);
    let lines = cart.resolve(vec![item(1, 1_000, 1_000, 5, 100)]);
    assert_eq!(lines.len(), 1);
    assert_eq!(cart.get(9), Some(4));
}

#[test]
fn resolve_copies_catalog_fields() {
    let mut cart = Cart::new();
    cart.set_quantity(7, 1);
    let lines = cart.resolve(vec![item(7, 999, 1_200, 5, 300)]);
    assert_eq!(lines[0].id, 7);
    assert_eq!(lines[0].name, "product 7");
    assert_eq!(lines[0].sku, "SKU-7");
    assert_eq!(lines[0].price, 999);
    assert_eq!(lines[0].regular_price, 1_200);
    assert_eq!(lines[0].weight, 300);
    assert_eq!(lines[0].permalink, "/product/7");
}

#[test]
fn bulk_update_sets_quantities_absolutely() {
    // "id" resets the entry to zero, so a following "quantity" sets it.
    let mut cart = Cart::new();
    cart.set_quantity(5, 7);
    cart.update("id=5&quantity=2&id=7&quantity=1");
    assert_eq!(cart.get(5), Some(2));
    assert_eq!(cart.get(7), Some(1));
}

#[test]
fn bulk_update_remove_deletes_context_entry() {
    let mut cart = Cart::new();
    cart.set_quantity(5, 2);
    cart.set_quantity(7, 1);
    cart.update("id=7&remove=");
    assert_eq!(cart.get(5), Some(2));
    assert_eq!(cart.get(7), None);
}

#[test]
fn bulk_update_skips_malformed_pairs() {
    // An unparseable id leaves the context unset; quantity and remove
    // without a context are ignored; the batch never aborts.
    let mut cart = Cart::new();
    cart.set_quantity(5, 2);
    cart.update("id=abc&quantity=3&remove=&junk&x=y");
    assert_eq!(cart.get(5), Some(2));
    cart.update("quantity=9");
    assert_eq!(cart.get(5), Some(2));
}

#[test]
fn bulk_update_quantity_accumulates_within_group() {
    let mut cart = Cart::new();
    cart.update("id=3&quantity=2&quantity=4");
    assert_eq!(cart.get(3), Some(6));
}

#[test]
fn resolve_at_the_caps() {
    // The largest row resolution accepts: totals stay exact in u64 cents.
    let mut cart = Cart::new();
    cart.set_quantity(1, 100_000);
    let lines = cart.resolve(vec![item(
        1,
        1_000_000_000,
        1_000_000_000,
        100_000,
        1_000_000_000,
    )]);
    assert_eq!(lines[0].quantity, 100_000);
    assert_eq!(cart.total_weight, 100_000_000_000_000);
    assert_eq!(cart.total_order, 100_000_000_000_000);
}

#[test]
fn add_saturates_at_i32_bounds() {
    let mut cart = Cart::new();
    cart.add(&ProductToCart { product_id: 1, product_quantity: i32::MAX });
    cart.add(&ProductToCart { product_id: 1, product_quantity: 1 });
    assert_eq!(cart.get(1), Some(i32::MAX));
}

#[test]
fn ids_and_pairs_report_entries_in_order() {
    let mut cart = Cart::new();
    cart.set_quantity(3, 1);
    cart.set_quantity(1, 2);
    assert_eq!(cart.ids(), vec![3, 1]);
    assert_eq!(cart.pairs(), vec![(3, 1), (1, 2)]);
}
