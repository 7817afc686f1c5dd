//! The decisions of the adapters: token lookup order, registry listings,
//! a listing cache, notification and fast-forward classification.

pub mod git;
pub mod listing;
pub mod notify;
pub mod registry_cache;
pub mod token;
