//! The data the planner works on.

pub mod ingredient;
pub mod menu;
pub mod quantity;
pub mod recipe;
pub mod weekday;
