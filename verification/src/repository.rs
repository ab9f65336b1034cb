//! Where recipes are kept.

pub mod recipe_repository;
