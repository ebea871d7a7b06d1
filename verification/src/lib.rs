//! The logic of a film and television diary: reading what the TMDB service
//! answers, shaping the rows that the diary stores, and choosing what to
//! recommend next.
pub mod json;
pub mod text;
pub mod recommend;
pub mod ranking;
pub mod plan;
pub mod models;
pub mod credits;
pub mod tmdb;
pub mod catalog;
pub mod embedding;
