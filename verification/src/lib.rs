//! A schema-agnostic compiler from property mappings to graph-query
//! documents, together with the pure decision logic of the create, update
//! and delete orchestration that surrounds them.

pub mod assignment;
pub mod document;
pub mod fragment;
pub mod json;
pub mod logging;
pub mod mapping;
pub mod orchestrate;
pub mod provider;
pub mod secrets;
pub mod ser;
pub mod text;
pub mod web;
