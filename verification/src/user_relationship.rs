//! Users and the groups they belong to.

use vstd::prelude::*;

verus! {

/// A user, known by id.
pub struct User {
    pub id: String,
}

/// A group of users.
pub struct Group {
    pub id: String,
    pub user_ids: Vec<String>,
}

impl From<String> for User {
    fn from(value: String) -> (r: User) {
        User { id: value }
    }
}

impl vstd::std_specs::convert::FromSpecImpl<String> for User {
    open spec fn obeys_from_spec() -> bool {
        true
    }

    open spec fn from_spec(value: String) -> User {
        User { id: value }
    }
}

impl Into<String> for User {
    fn into(self) -> (r: String) {
        self.id
    }
}

impl vstd::std_specs::convert::IntoSpecImpl<String> for User {
    open spec fn obeys_into_spec() -> bool {
        true
    }

    open spec fn into_spec(self) -> String {
        self.id
    }
}

} // verus!
