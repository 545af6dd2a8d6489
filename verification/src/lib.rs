//! Adapter logic for rendering markdown inside a reactive GUI framework.
//!
//! The crate models the binding layer between an external markdown renderer
//! core and a host GUI framework: a registry of custom components resolved
//! while the view tree is built, a click wrapper that traces every rendered
//! span back to a byte range of the markdown source, and the translation of
//! each markdown construct into a native view node.

pub mod click;
pub mod component;
pub mod links;
pub mod parse;
pub mod props;
pub mod registry;
pub mod render;
pub mod text;
pub mod view;
