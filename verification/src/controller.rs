//! How the planner answers what the user does.

pub mod main_controller;
