//! The core of a blogging backend: users and their sessions, articles with tags, comments,
//! favorites and follows.
//!
//! The store of record is a [`db::Conn`]: five tables and the rules that hold between
//! them. Every operation of the query layer takes the store explicitly, asks that it obey
//! its rules, and leaves a store that obeys them. What an operation returns and how it
//! changes the store is stated over the mathematical value of the store, [`db::ConnModel`].
//!
//! - [`db`] holds the store and the query layer: [`db::users`], [`db::profiles`],
//!   [`db::articles`] and [`db::comments`], with [`db::pagination`] for cutting pages.
//! - [`models`] holds the rows and the views assembled from them.
//! - [`auth`] issues and reads session tokens, [`password`] hashes and checks passwords,
//!   [`time`] keeps and renders instants.
//! - [`errors`] collects validation failures by field.
//! - [`routes`] is what each request does once its input is read.
//!
//! Hashing, signing, transliteration, random draws, calendar arithmetic and the collection
//! of validation failures are left to the crates made for them. Each such call stands in
//! one small function whose contract is taken on trust and says so.

pub mod auth;
pub mod config;
pub mod db;
pub mod errors;
pub mod models;
pub mod password;
pub mod routes;
pub mod text;
pub mod time;
pub mod users;
pub mod util;
