//! Catalog-side data types: product status and visibility, categories,
//! product images, and the sort-key mapping for product listings.

use vstd::prelude::*;
use crate::strutil::str_eq;

verus! {

/// The publication status of a product; only published products reach the
/// storefront and the cart.
#[derive(Clone, Copy, Debug, PartialEq, Eq, Structural)]
pub enum Status {
    Draft,
    Pending,
    Private,
    Publish,
}

impl Status {
    /// The lowercase wire name of the status.
    pub open spec fn spec_str(self) -> Seq<char> {
        match self {
            Status::Draft => "draft"@,
            Status::Pending => "pending"@,
            Status::Private => "private"@,
            Status::Publish => "publish"@,
        }
    }

    /// The lowercase wire name of the status.
    pub fn as_str(&self) -> (r: &str)
        ensures
            r@ == self.spec_str(),
    {
        match self {
            Status::Draft => "draft",
            Status::Pending => "pending",
            Status::Private => "private",
            Status::Publish => "publish",
        }
    }
}

/// The stock availability of a product.
#[derive(Clone, Copy, Debug, PartialEq, Eq, Structural)]
pub enum StockStatus {
    InStock,
    OutOfStock,
    OnBackorder,
}

impl StockStatus {
    /// The lowercase wire name of the stock status.
    pub open spec fn spec_str(self) -> Seq<char> {
        match self {
            StockStatus::InStock => "instock"@,
            StockStatus::OutOfStock => "outofstock"@,
            StockStatus::OnBackorder => "onbackorder"@,
        }
    }

    /// The lowercase wire name of the stock status.
    pub fn as_str(&self) -> (r: &str)
        ensures
            r@ == self.spec_str(),
    {
        match self {
            StockStatus::InStock => "instock",
            StockStatus::OutOfStock => "outofstock",
            StockStatus::OnBackorder => "onbackorder",
        }
    }
}

/// Where a product is listed.
#[derive(Clone, Copy, Debug, PartialEq, Eq, Structural)]
pub enum CatalogVisibility {
    Visible,
    Catalog,
    Search,
    Hidden,
}

/// A product image attached through the media library.
#[derive(Debug)]
pub struct Media {
    pub id: i32,
    pub src: String,
    pub name: String,
    pub alt: String,
    pub position: i32,
}

impl Media {
    /// A fresh, empty image slot.
    pub fn new() -> (r: Media)
        ensures
            r.id == 0,
            r.src@.len() == 0,
            r.name@.len() == 0,
            r.alt@.len() == 0,
            r.position == 0,
    {
        proof {
            reveal_strlit("");
        }
        Media { id: 0, src: "".to_owned(), name: "".to_owned(), alt: "".to_owned(), position: 0 }
    }

    /// Reset the slot to the empty state.
    pub fn default(&mut self)
        ensures
            final(self).id == 0,
            final(self).src@.len() == 0,
            final(self).name@.len() == 0,
            final(self).alt@.len() == 0,
            final(self).position == 0,
    {
        proof {
            reveal_strlit("");
        }
        self.id = 0;
        self.src = "".to_owned();
        self.name = "".to_owned();
        self.alt = "".to_owned();
        self.position = 0;
    }

    /// A field-for-field copy of the image.
    pub fn clone(&self) -> (r: Media)
        ensures
            r.id == self.id,
            r.src@ == self.src@,
            r.name@ == self.name@,
            r.alt@ == self.alt@,
            r.position == self.position,
    {
        Media {
            id: self.id,
            src: self.src.as_str().to_owned(),
            name: self.name.as_str().to_owned(),
            alt: self.alt.as_str().to_owned(),
            position: self.position,
        }
    }
}

/// A product category node.
#[derive(Debug)]
pub struct Category {
    pub id: i32,
    pub name: String,
    pub slug: String,
    pub parent: i32,
    pub path: String,
    pub has_childs: bool,
    pub branches: i32,
    pub count: i64,
}

/// What an admin product-image edit does.
#[derive(Debug, PartialEq, Eq, Structural)]
pub enum ImageOperation {
    Delete,
    Update,
    Insert,
}

/// A product image as the admin screens edit it.
#[derive(Debug)]
pub struct ProductImage {
    pub id: i32,
    pub src: String,
    pub name: String,
    pub alt: String,
    pub position: i32,
}

impl ProductImage {
    /// A fresh, empty image slot.
    pub fn new() -> (r: ProductImage)
        ensures
            r.id == 0,
            r.src@.len() == 0,
            r.name@.len() == 0,
            r.alt@.len() == 0,
            r.position == 0,
    {
        proof {
            reveal_strlit("");
        }
        ProductImage {
            id: 0,
            src: "".to_owned(),
            name: "".to_owned(),
            alt: "".to_owned(),
            position: 0,
        }
    }

    /// Reset the slot to the empty state.
    pub fn default(&mut self)
        ensures
            final(self).id == 0,
            final(self).src@.len() == 0,
            final(self).name@.len() == 0,
            final(self).alt@.len() == 0,
            final(self).position == 0,
    {
        proof {
            reveal_strlit("");
        }
        self.id = 0;
        self.src = "".to_owned();
        self.name = "".to_owned();
        self.alt = "".to_owned();
        self.position = 0;
    }

    /// A field-for-field copy of the image.
    pub fn clone(&self) -> (r: ProductImage)
        ensures
            r.id == self.id,
            r.src@ == self.src@,
            r.name@ == self.name@,
            r.alt@ == self.alt@,
            r.position == self.position,
    {
        ProductImage {
            id: self.id,
            src: self.src.as_str().to_owned(),
            name: self.name.as_str().to_owned(),
            alt: self.alt.as_str().to_owned(),
            position: self.position,
        }
    }
}

/// The sort column a product-listing request maps to.
pub open spec fn spec_products_order_by(p: Option<Seq<char>>) -> Seq<char> {
    match p {
        Some(s) => if s == "date"@ {
            "date_created"@
        } else if s == "modified"@ {
            "date_modified"@
        } else if s == "id"@ {
            "id"@
        } else if s == "title"@ {
            "name"@
        } else if s == "price"@ {
            "price"@
        } else {
            "date_created"@
        },
        None => "date_created"@,
    }
}

/// The sort column for a product listing; unknown or absent keys fall
/// back to the creation date.
pub fn products_order_by(parameter: &Option<String>) -> (r: &str)
    ensures
        r@ == spec_products_order_by(match parameter {
            Some(v) => Some(v@),
            None => None,
        }),
{
    match parameter {
        Some(v) => {
            if str_eq(v.as_str(), "date") {
                "date_created"
            } else if str_eq(v.as_str(), "modified") {
                "date_modified"
            } else if str_eq(v.as_str(), "id") {
                "id"
            } else if str_eq(v.as_str(), "title") {
                "name"
            } else if str_eq(v.as_str(), "price") {
                "price"
            } else {
                "date_created"
            }
        },
        None => "date_created",
    }
}

} // verus!
