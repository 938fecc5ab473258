//! Ban records behind a permission check.
//!
//! A request carries a token that a resolver outside this library turns
//! into a permission. The operations in [`routes`] check that permission,
//! read the path parameter where there is one, and only then touch the
//! [`store::BanStore`]. Every outcome is one of the categories of
//! [`errors::UserError`] or a success.
pub mod errors;
pub mod guards;
pub mod ident;
pub mod store;
pub mod routes;
pub mod laws;
