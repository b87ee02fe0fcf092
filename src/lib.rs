//! A query mediation engine that releases only noised aggregates of a
//! relational store, under per-table privacy budgets.

pub mod text;
pub mod error;
pub mod analyzer;
pub mod schema;
pub mod usage;
pub mod ledger;
pub mod transforms;
pub mod session;
pub mod database;
pub mod tokens;
pub mod symbols;
pub mod lexer;
