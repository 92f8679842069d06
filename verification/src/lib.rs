//! A verified data-access layer for a small book service: an embedded,
//! schema-less document store, parameterized query execution over four
//! fixed statement templates, and fail-fast conversion in both
//! directions between the store's dynamically typed value union and
//! typed book records. Every operation carries a contract; the laws
//! module states and proves the properties that relate them, such as
//! the create/get round trip and delete-then-get.

pub mod convert;
pub mod db;
pub mod ident;
pub mod laws;
pub mod error;
pub mod value;
