//! Weekly meal planning: a recipe catalog read from flat text, serving-size
//! scaling, a consolidated shopping list, and the layout of the exported
//! spreadsheet. Every function is verified against its contract.

pub mod controller;
pub mod error;
pub mod model;
pub mod number;
pub mod repository;
pub mod search;
pub mod text;
pub mod service;
