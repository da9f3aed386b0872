//! Dependency-aware generation of configuration reference tables.
//!
//! A registry of known record definitions, a per-target queue of generation
//! requests whose flatten dependencies are not yet known, and a resolution
//! protocol that retries pending requests whenever a new definition is
//! registered, regardless of declaration order.

use vstd::prelude::*;

mod casing;
mod document;
mod driver;
mod expand;
mod groups;
mod model;
mod pending;
mod registry;
mod render;
mod text;

pub use casing::apply_field_name_transformation;
pub use document::update_document_content;
pub use driver::{generate_config_docs, register_struct_definition};
pub use expand::{can_generate_immediately, expand_nested_structs};
pub use model::{
    parse_rename_all, AttrError, CaseStyle, ClapAttrs, ConfigDocsArgs, FieldInfo, OutputFormat,
    StructInfo,
};
pub use pending::{try_process_pending_generations, PendingGeneration, PendingStore, WriteAction};
pub use registry::{get_registered_struct, StructRegistry};
pub use render::{generate_flat_table, generate_grouped_table, generate_markdown_table};

verus! {

} // verus!
