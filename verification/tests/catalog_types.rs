//! The carried-over data types: wire names, defaults and small helpers.

use storefront::backend::categories_order_by;
use storefront::backend::CategoryPage;
use storefront::catalog::Media as CatalogMedia;
use storefront::catalog::ProductImage;
use storefront::orders::orders_order_by;
use storefront::users::users_order_by;
use storefront::catalog::Status;
use storefront::catalog::StockStatus;
use storefront::catalog::products_order_by;
use storefront::media::Media;
use storefront::orders::OrderStatus;
use storefront::strutil::parse_i32;
use storefront::strutil::split_str;
use storefront::users::UserRoles;

#[test]
fn status_wire_names() {
    assert_eq!(Status::Draft.as_str(), "draft");
    assert_eq!(Status::Publish.as_str(), "publish");
    assert_eq!(StockStatus::InStock.as_str(), "instock");
    assert_eq!(StockStatus::OutOfStock.as_str(), "outofstock");
    assert_eq!(OrderStatus::OnHold.as_str(), "on-hold");
    assert_eq!(OrderStatus::Pending.as_str(), "pending");
}

#[test]
fn products_order_by_maps_known_keys() {
    assert_eq!(products_order_by(&Some("date".to_string())), "date_created");
    assert_eq!(products_order_by(&Some("modified".to_string())), "date_modified");
    assert_eq!(products_order_by(&Some("id".to_string())), "id");
    assert_eq!(products_order_by(&Some("title".to_string())), "name");
    assert_eq!(products_order_by(&Some("price".to_string())), "price");
    assert_eq!(products_order_by(&Some("rating".to_string())), "date_created");
    assert_eq!(products_order_by(&None), "date_created");
}

#[test]
fn roles_and_admin_check() {
    assert!(UserRoles::Admin.is_admin());
    assert!(!UserRoles::Customer.is_admin());
    assert!(!UserRoles::Guest.is_admin());
    assert_eq!(UserRoles::Admin.as_str(), "admin");
    assert_eq!(UserRoles::Customer.as_str(), "customer");
    assert_eq!(UserRoles::Guest.as_str(), "guest");
}

#[test]
fn listing_sort_keys_map_with_their_defaults() {
    assert_eq!(orders_order_by(&Some("id".to_string())), "id");
    assert_eq!(orders_order_by(&Some("modified".to_string())), "date_modified");
    assert_eq!(orders_order_by(&Some("date".to_string())), "date_created");
    assert_eq!(orders_order_by(&Some("slug".to_string())), "date_created");
    assert_eq!(orders_order_by(&None), "date_created");
    assert_eq!(users_order_by(&Some("id".to_string())), "id");
    assert_eq!(users_order_by(&Some("name".to_string())), "first_name, last_name");
    assert_eq!(users_order_by(&Some("registered_date".to_string())), "date_created");
    assert_eq!(users_order_by(&None), "first_name, last_name");
    assert_eq!(categories_order_by(&Some("id".to_string())), "id");
    assert_eq!(categories_order_by(&Some("name".to_string())), "name");
    assert_eq!(categories_order_by(&Some("slug".to_string())), "slug");
    assert_eq!(categories_order_by(&Some("count".to_string())), "path");
    assert_eq!(categories_order_by(&None), "path");
}

#[test]
fn catalog_media_lifecycle() {
    let mut m = CatalogMedia::new();
    assert_eq!(m.id, 0);
    m.id = 4;
    m.alt = "front".to_string();
    m.position = 1;
    let copy = m.clone();
    assert_eq!(copy.id, 4);
    assert_eq!(copy.alt, "front");
    assert_eq!(copy.position, 1);
    m.default();
    assert_eq!(m.id, 0);
    assert_eq!(m.alt, "");
    assert_eq!(m.position, 0);
}

#[test]
fn media_default_is_empty() {
    let m = Media::default();
    assert_eq!(m.id, 0);
    assert_eq!(m.src, "");
    assert!(m.date_created.is_none());
}

#[test]
fn product_image_lifecycle() {
    let mut img = ProductImage::new();
    assert_eq!(img.id, 0);
    img.id = 9;
    img.src = "a.jpg".to_string();
    img.position = 2;
    let copy = img.clone();
    assert_eq!(copy.id, 9);
    assert_eq!(copy.src, "a.jpg");
    assert_eq!(copy.position, 2);
    img.default();
    assert_eq!(img.id, 0);
    assert_eq!(img.src, "");
    assert_eq!(img.position, 0);
}

#[test]
fn category_page_new_is_empty() {
    let p = CategoryPage::new();
    assert!(p.categories.is_empty());
    assert_eq!(p.total_count, 0);
}

#[test]
fn parse_i32_matches_std_parsing() {
    assert_eq!(parse_i32("42"), Some(42));
    assert_eq!(parse_i32("-42"), Some(-42));
    assert_eq!(parse_i32("+7"), Some(7));
    assert_eq!(parse_i32("0"), Some(0));
    assert_eq!(parse_i32("2147483647"), Some(i32::MAX));
    assert_eq!(parse_i32("-2147483648"), Some(i32::MIN));
    assert_eq!(parse_i32("2147483648"), None);
    assert_eq!(parse_i32("-2147483649"), None);
    assert_eq!(parse_i32(""), None);
    assert_eq!(parse_i32("-"), None);
    assert_eq!(parse_i32("4x"), None);
    assert_eq!(parse_i32(" 4"), None);
}

#[test]
fn split_str_matches_std_split() {
    let parts = split_str("a=1&b=2&", '&');
    assert_eq!(parts, vec!["a=1".to_string(), "b=2".to_string(), "".to_string()]);
    assert_eq!(split_str("", '&'), vec!["".to_string()]);
    assert_eq!(split_str("abc", '&'), vec!["abc".to_string()]);
}
