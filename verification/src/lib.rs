//! Descriptor-driven schema compiler.
//!
//! Given a decoded protocol-buffer descriptor set (services, messages, enums,
//! fields, with imports already flattened), this library builds a descriptor
//! index keyed by fully-qualified type names and produces two derived
//! artifacts: a human-readable markdown contract document and a
//! machine-readable schema bridge that mirrors every RPC method and message
//! shape into a path/schema document.

pub mod auth;
pub mod bridge;
pub mod builder;
pub mod descriptor;
pub mod domain;
pub mod index;
pub mod json;
pub mod laws;
pub mod markdown;
pub mod pipeline;
pub mod render;
pub mod strutil;

