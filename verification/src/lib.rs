//! The local data store of a time-tracking and invoicing application.
//!
//! The store holds clients, their projects and invoices, the time entries of
//! the projects, the line items of the invoices, and free-form settings. This
//! crate states what a consistent store is, moves its schema forward from one
//! version to the next, and offers the operations that read and change it.
//!
//! - [`migration`] decides which schema change runs next, and [`schema`] holds
//!   the changes themselves.
//! - [`model`] holds the rows, [`tables`] the store as a mathematical value
//!   and what makes it consistent, [`rules`] what each operation refuses.
//! - [`store`] is the repository; [`billing`] does its arithmetic.
//! - [`consistency`], [`filtering`] and [`laws`] hold the proofs.
//! - [`commands`] holds the entry points that do not touch the store.

pub mod billing;
pub mod commands;
pub mod consistency;
pub mod error;
pub mod filtering;
pub mod laws;
pub mod migration;
pub mod model;
pub mod rules;
pub mod schema;
pub mod store;
pub mod tables;
pub mod text;
