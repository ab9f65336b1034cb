//! What the planner does with recipes.

pub mod excel_round_trip;
pub mod excel_service;
pub mod recipe_service;
