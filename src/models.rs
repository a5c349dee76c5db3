//! Records exchanged with the account and task services.

use vstd::prelude::*;

verus! {

/// A signed-in user as the identity provider reports it.
#[derive(Clone, Debug, PartialEq, Eq)]
pub struct User {
    pub id: String,
    pub email: String,
    pub family_name: String,
    pub given_name: String,
}

/// The account the backend keeps for a user.
#[derive(Clone, Debug, PartialEq, Eq)]
pub struct ExistingUser {
    pub id: String,
    pub auth_user_id: String,
    pub email: Option<String>,
    pub display_name: Option<String>,
    pub created_at: Option<String>,
    pub updated_at: Option<String>,
}

/// A refined text and, when given, why it was changed.
#[derive(Clone, Debug, PartialEq, Eq)]
pub struct RefinedText {
    pub refined_text: String,
    pub explanation: Option<String>,
}

/// A task as the account service stores it.
#[derive(Clone, Debug, PartialEq, Eq)]
pub struct Task {
    pub id: i32,
    pub name: String,
    pub done: bool,
    pub user_id: String,
    pub created_at: String,
    pub updated_at: String,
}

} // verus!
