//! Books, readers and reading lists kept in a property graph, with salted
//! credentials beside them.

pub mod accounts;
pub mod auth;
pub mod bolt;
pub mod cors;
pub mod database;
pub mod facade;
pub mod graph;
pub mod graph_laws;
pub mod hashing;
pub mod recommend;
pub mod row;
