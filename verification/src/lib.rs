//! A verified catalog-and-purchase core for a marketplace of source-code
//! products.
//!
//! Sellers list products, buyers browse by category or free text and buy a
//! product through a recorded purchase. The store keeps three relations
//! (products, users, purchases) with the invariants that matter for money and
//! ownership records: product and purchase identifiers are unique, at most one
//! purchase exists per (user, product) pair, every purchase references a
//! listed product, and each product's download counter equals the number of
//! purchases recorded for it.

pub mod model;
pub mod store;
pub mod text;
