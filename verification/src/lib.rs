//! A role-scoped e-commerce core: a product catalog, user and admin
//! accounts, per-user carts, and a checkout workflow that records orders.
//!
//! The crate is organised as three facades (storefront, admin, user) over a
//! single store of entity tables. All state lives in the [`store::Store`]
//! value; the transport and the persistent database behind a deployment are
//! external collaborators that hand plain values in and out.

pub mod admin;
pub mod cart;
pub mod domain;
pub mod ident;
pub mod keyed;
pub mod laws;
pub mod store;
pub mod storefront;
pub mod user;
