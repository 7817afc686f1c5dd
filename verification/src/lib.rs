//! Crate publishing and promotion pipelines: configuration, stage
//! decisions, deferral tickets, dependency ordering and version bumps.

pub mod strmap;
pub mod text;
pub mod toml_doc;

pub mod config;
pub mod domain;
pub mod infra;
pub mod api;

pub use api::{
    Api, ApiBuilder, PromoteParams, PublishAllParams, PublishAllResult, PublishParams, ShipParams,
};
