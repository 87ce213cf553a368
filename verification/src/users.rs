//! User roles and credential records, as the authentication layer hands
//! them to the rest of the application.

use vstd::prelude::*;
use crate::strutil::str_eq;

verus! {

/// The role a user account carries.
#[derive(Clone, Copy, Debug, PartialEq, Eq, Structural)]
pub enum UserRoles {
    Admin,
    Customer,
    Guest,
}

impl UserRoles {
    /// The lowercase wire name of the role.
    pub open spec fn spec_str(self) -> Seq<char> {
        match self {
            UserRoles::Admin => "admin"@,
            UserRoles::Customer => "customer"@,
            UserRoles::Guest => "guest"@,
        }
    }

    /// The lowercase wire name of the role.
    pub fn as_str(&self) -> (r: &str)
        ensures
            r@ == self.spec_str(),
    {
        match self {
            UserRoles::Admin => "admin",
            UserRoles::Customer => "customer",
            UserRoles::Guest => "guest",
        }
    }

    /// Whether the role grants access to the admin backend.
    pub fn is_admin(&self) -> (r: bool)
        ensures
            r == (*self == UserRoles::Admin),
    {
        *self == UserRoles::Admin
    }
}

/// The sort column a user-listing request maps to; unknown or absent keys
/// fall back to the name columns.
pub open spec fn spec_users_order_by(p: Option<Seq<char>>) -> Seq<char> {
    match p {
        Some(s) => if s == "id"@ {
            "id"@
        } else if s == "name"@ {
            "first_name, last_name"@
        } else if s == "registered_date"@ {
            "date_created"@
        } else {
            "first_name, last_name"@
        },
        None => "first_name, last_name"@,
    }
}

/// The sort column for a user listing.
pub fn users_order_by(parameter: &Option<String>) -> (r: &str)
    ensures
        r@ == spec_users_order_by(match parameter {
            Some(v) => Some(v@),
            None => None,
        }),
{
    match parameter {
        Some(v) => {
            if str_eq(v.as_str(), "id") {
                "id"
            } else if str_eq(v.as_str(), "name") {
                "first_name, last_name"
            } else if str_eq(v.as_str(), "registered_date") {
                "date_created"
            } else {
                "first_name, last_name"
            }
        },
        None => "first_name, last_name",
    }
}

/// The stored credentials of one user.
#[derive(Debug)]
pub struct Cardentials {
    pub user_id: i32,
    pub password: String,
    pub role: UserRoles,
}

} // verus!
