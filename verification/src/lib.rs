//! The logic behind hosted connectors and their tools: the connector runtime that is
//! shared between sessions, the exposure of tools to the model, the diagnostics of
//! the tool search, the requests on apps, the diagnostics of OAuth store resolution,
//! and the migration of another agent's commands into skills.
//!
//! Contracts are stated over models: `deep_view` takes every type to a structure of
//! sequences, maps and plain values, in which a string is the sequence of its
//! characters.

use vstd::prelude::*;

pub mod agent_terms;
pub mod app_info;
pub mod apps_installed;
pub mod apps_installed_laws;
pub mod apps_list;
pub mod apps_list_laws;
pub mod command_document;
pub mod command_migration;
pub mod command_migration_laws;
pub mod command_names;
pub mod command_text_laws;
pub mod config_write;
pub mod connector_runtime;
pub mod connector_runtime_laws;
pub mod connector_runtime_step_laws;
pub mod decimal;
pub mod digest;
pub mod mcp_diagnostics;
pub mod metrics;
pub mod model_laws;
pub mod order;
pub mod resolution_state;
pub mod resolution_state_laws;
pub mod rpc_error;
pub mod text;
pub mod text_laws;
pub mod text_map;
pub mod tool_exposure;
pub mod tool_exposure_laws;
pub mod tool_identity;
pub mod tool_identity_laws;
pub mod tool_info;
pub mod tool_search_laws;
pub mod tool_search_record_laws;
pub mod tool_search_recorder;

verus! {

}
