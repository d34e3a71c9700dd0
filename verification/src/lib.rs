//! Catalogue of authors, books and ranked book fragments.
//!
//! The heart of the crate is the fragment ranking engine in [`fragment`]:
//! it keeps the fragments of every book ordered by an integer rank and
//! preserves, across insertion, reordering, update and removal, the rule
//! that no two fragments of one book share a rank.
//!
//! - [`models`] holds the rows of the catalogue as plain values.
//! - [`ranking`] is the mathematical model: what a table of fragments is,
//!   what each operation makes of it, and the decisions an operation
//!   takes before it touches the store.
//! - [`table`] is the fragment table the engine runs on.
//! - [`fragment`] is the engine itself.
//! - [`laws`] proves what holds of the engine whatever it is asked to do.
//! - [`db`] and [`server`] hold what the catalogue decides around the
//!   store and the HTTP interface: which books answer a search, which
//!   requests carry the key, which routes exist, and how a failure is
//!   reported.
//! - [`ident`] draws identifiers and writes them as text.
pub mod db;
pub mod fragment;
pub mod ident;
pub mod laws;
pub mod models;
pub mod ranking;
pub mod server;
pub mod table;
pub mod utils;
