//! View models for the admin backend's category listings.

use vstd::prelude::*;
use crate::strutil::str_eq;

verus! {

/// The sort column a category-listing request maps to; unknown or absent
/// keys fall back to the tree path.
pub open spec fn spec_categories_order_by(p: Option<Seq<char>>) -> Seq<char> {
    match p {
        Some(s) => if s == "id"@ {
            "id"@
        } else if s == "name"@ {
            "name"@
        } else if s == "slug"@ {
            "slug"@
        } else {
            "path"@
        },
        None => "path"@,
    }
}

/// The sort column for a category listing.
pub fn categories_order_by(parameter: &Option<String>) -> (r: &str)
    ensures
        r@ == spec_categories_order_by(match parameter {
            Some(v) => Some(v@),
            None => None,
        }),
{
    match parameter {
        Some(v) => {
            if str_eq(v.as_str(), "id") {
                "id"
            } else if str_eq(v.as_str(), "name") {
                "name"
            } else if str_eq(v.as_str(), "slug") {
                "slug"
            } else {
                "path"
            }
        },
        None => "path",
    }
}

/// One category row of an admin listing.
#[derive(Debug)]
pub struct CategoryShort {
    pub id: i32,
    pub name: String,
    pub slug: String,
    pub parent: i32,
    pub description: String,
    pub count: i32,
}

/// One page of an admin category listing.
#[derive(Debug)]
pub struct CategoryPage {
    pub categories: Vec<CategoryShort>,
    pub total_count: i32,
    pub current_page: i32,
    pub per_page: i32,
    pub total_pages: i32,
}

impl CategoryPage {
    /// An empty page.
    pub fn new() -> (r: CategoryPage)
        ensures
            r.categories@.len() == 0,
            r.total_count == 0,
            r.current_page == 0,
            r.per_page == 0,
            r.total_pages == 0,
    {
        CategoryPage {
            categories: Vec::new(),
            total_count: 0,
            current_page: 0,
            per_page: 0,
            total_pages: 0,
        }
    }
}

} // verus!
