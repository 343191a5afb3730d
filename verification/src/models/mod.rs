//! Stored rows and the views assembled from them.

pub mod article;
pub mod comment;
pub mod user;
