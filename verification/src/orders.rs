//! The immutable order record: addresses, priced line items, shipping
//! lines and the aggregate totals, with the arithmetic invariant every
//! assembled order satisfies.
//!
//! All monetary fields are integer cents.

use vstd::prelude::*;
use crate::strutil::str_eq;

verus! {

/// The sort column an order-listing request maps to; unknown or absent
/// keys fall back to the creation date.
pub open spec fn spec_orders_order_by(p: Option<Seq<char>>) -> Seq<char> {
    match p {
        Some(s) => if s == "id"@ {
            "id"@
        } else if s == "modified"@ {
            "date_modified"@
        } else if s == "date"@ {
            "date_created"@
        } else {
            "date_created"@
        },
        None => "date_created"@,
    }
}

/// The sort column for an order listing.
pub fn orders_order_by(parameter: &Option<String>) -> (r: &str)
    ensures
        r@ == spec_orders_order_by(match parameter {
            Some(v) => Some(v@),
            None => None,
        }),
{
    match parameter {
        Some(v) => {
            if str_eq(v.as_str(), "id") {
                "id"
            } else if str_eq(v.as_str(), "modified") {
                "date_modified"
            } else if str_eq(v.as_str(), "date") {
                "date_created"
            } else {
                "date_created"
            }
        },
        None => "date_created",
    }
}

/// The currency an order is charged in.
#[derive(Clone, Copy, Debug, PartialEq, Eq, Structural)]
#[allow(non_camel_case_types)]
pub enum Currency {
    EUR,
    USD,
}

/// The lifecycle state of an order.
#[derive(Clone, Copy, Debug, PartialEq, Eq, Structural)]
pub enum OrderStatus {
    Pending,
    Processing,
    OnHold,
    Completed,
    Cancelled,
    Refunded,
    Failed,
    Trash,
}

impl OrderStatus {
    /// The lowercase wire name of the status.
    pub open spec fn spec_str(self) -> Seq<char> {
        match self {
            OrderStatus::Pending => "pending"@,
            OrderStatus::Processing => "processing"@,
            OrderStatus::OnHold => "on-hold"@,
            OrderStatus::Completed => "completed"@,
            OrderStatus::Cancelled => "cancelled"@,
            OrderStatus::Refunded => "refunded"@,
            OrderStatus::Failed => "failed"@,
            OrderStatus::Trash => "trash"@,
        }
    }

    /// The lowercase wire name of the status.
    pub fn as_str(&self) -> (r: &str)
        ensures
            r@ == self.spec_str(),
    {
        match self {
            OrderStatus::Pending => "pending",
            OrderStatus::Processing => "processing",
            OrderStatus::OnHold => "on-hold",
            OrderStatus::Completed => "completed",
            OrderStatus::Cancelled => "cancelled",
            OrderStatus::Refunded => "refunded",
            OrderStatus::Failed => "failed",
            OrderStatus::Trash => "trash",
        }
    }
}

/// The billing address and contact data of an order.
#[derive(Debug)]
pub struct Billing {
    pub first_name: String,
    pub last_name: String,
    pub address: String,
    pub city: String,
    pub postcode: String,
    pub country_code: String,
    pub email: String,
    pub phone: String,
    pub tax_id_number: String,
}

/// The shipping address of an order.
#[derive(Debug)]
pub struct Shipping {
    pub first_name: String,
    pub last_name: String,
    pub address: String,
    pub city: String,
    pub postcode: String,
    pub country_code: String,
}

/// One priced order line. `subtotal` is the pre-discount amount (regular
/// price times quantity), `total` the charged amount; the `_tax` fields
/// carry the per-unit tax component times quantity.
#[derive(Debug)]
pub struct LineItem {
    pub product_id: i32,
    pub sku: String,
    pub name: String,
    pub price: u64,
    pub quantity: i32,
    pub subtotal: u64,
    pub subtotal_tax: u64,
    pub total: u64,
    pub total_tax: u64,
}

/// One shipping charge of an order.
#[derive(Clone, Copy, Debug, PartialEq, Eq, Structural)]
pub struct ShippingLine {
    pub total: u64,
    pub total_tax: u64,
}

/// A persisted order: immutable once assembled.
#[derive(Debug)]
pub struct Order {
    pub order_key: String,
    pub customer_ip_address: String,
    pub customer_user_agent: String,
    pub billing: Billing,
    pub shipping: Shipping,
    pub line_items: Vec<LineItem>,
    pub shipping_items: Vec<ShippingLine>,
    pub payment_method: String,
    pub payment_method_title: String,
    pub currency: Currency,
    pub discount_total: u64,
    pub discount_tax: u64,
    pub shipping_total: u64,
    pub shipping_tax: u64,
    pub cart_tax: u64,
    pub total: u64,
    pub total_tax: u64,
    pub prices_include_tax: bool,
    pub customer_note: String,
    pub status: OrderStatus,
    pub cart_hash: String,
}

/// Sum of the line items' charged totals.
pub open spec fn sum_line_totals(s: Seq<LineItem>) -> int
    decreases s.len(),
{
    if s.len() == 0 {
        0
    } else {
        sum_line_totals(s.drop_last()) + s.last().total
    }
}

/// Sum of the line items' taxes on the charged totals.
pub open spec fn sum_line_total_tax(s: Seq<LineItem>) -> int
    decreases s.len(),
{
    if s.len() == 0 {
        0
    } else {
        sum_line_total_tax(s.drop_last()) + s.last().total_tax
    }
}

/// Sum of the line items' pre-discount subtotals.
pub open spec fn sum_line_subtotals(s: Seq<LineItem>) -> int
    decreases s.len(),
{
    if s.len() == 0 {
        0
    } else {
        sum_line_subtotals(s.drop_last()) + s.last().subtotal
    }
}

/// Sum of the line items' taxes on the pre-discount subtotals.
pub open spec fn sum_line_subtotal_tax(s: Seq<LineItem>) -> int
    decreases s.len(),
{
    if s.len() == 0 {
        0
    } else {
        sum_line_subtotal_tax(s.drop_last()) + s.last().subtotal_tax
    }
}

/// Sum of the shipping lines' charges.
pub open spec fn sum_ship_totals(s: Seq<ShippingLine>) -> int
    decreases s.len(),
{
    if s.len() == 0 {
        0
    } else {
        sum_ship_totals(s.drop_last()) + s.last().total
    }
}

/// Sum of the shipping lines' taxes.
pub open spec fn sum_ship_total_tax(s: Seq<ShippingLine>) -> int
    decreases s.len(),
{
    if s.len() == 0 {
        0
    } else {
        sum_ship_total_tax(s.drop_last()) + s.last().total_tax
    }
}

/// The arithmetic invariant of an assembled order: the grand total and tax
/// are the sums of their line and shipping parts, the discount fields are
/// the per-line gaps between regular and charged amounts summed, the
/// shipping aggregates match the shipping lines, and no line's charged
/// total exceeds its subtotal.
pub open spec fn order_wf(o: Order) -> bool {
    &&& o.total as int == sum_line_totals(o.line_items@) + sum_ship_totals(o.shipping_items@)
    &&& o.total_tax as int == sum_line_total_tax(o.line_items@) + sum_ship_total_tax(
        o.shipping_items@,
    )
    &&& o.cart_tax as int == sum_line_total_tax(o.line_items@)
    &&& o.discount_total as int == sum_line_subtotals(o.line_items@) - sum_line_totals(
        o.line_items@,
    )
    &&& o.discount_tax as int == sum_line_subtotal_tax(o.line_items@) - sum_line_total_tax(
        o.line_items@,
    )
    &&& o.shipping_total as int == sum_ship_totals(o.shipping_items@)
    &&& o.shipping_tax as int == sum_ship_total_tax(o.shipping_items@)
    &&& forall|i: int|
        0 <= i < o.line_items@.len() ==> (#[trigger] o.line_items@[i]).total <= o.line_items@[
            i
        ].subtotal
}

} // verus!
