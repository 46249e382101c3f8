//! Vocabulary study: topics, quizzes, progress and the decisions of the
//! study screens, with their contracts.

pub mod text;
pub mod language;
pub mod level;
pub mod model;
pub mod order;
pub mod quiz;
pub mod quizgen;
pub mod app;
pub mod study;
pub mod topics;
pub mod keys;
pub mod persist;
pub mod generation;
pub mod display;
