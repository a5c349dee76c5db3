//! Records of the task planner and weather services.

use vstd::prelude::*;

verus! {

/// A task as the planner service stores it.
#[derive(Clone, Debug, PartialEq, Eq)]
pub struct Task {
    pub id: String,
    pub content: String,
    pub day: String,
    pub completed: bool,
    pub user_id: String,
    pub created_at: Option<String>,
    pub updated_at: Option<String>,
}

/// A place to look up the weather for.
#[derive(Clone, Debug, PartialEq, Eq)]
pub struct WeatherLocation {
    pub city: String,
    pub state: String,
    pub country: String,
}

} // verus!
