//! Verified core of the Nanika launcher host: diagnostics, configuration
//! boundaries, extension registry and package validation, and the bounded
//! state that extension workers share with the user interface.

pub mod diagnostic_category;
pub mod diagnostic_code;
pub mod project_identity;
pub mod text;
pub mod extension_id;
pub mod ordered_key;
pub mod registry;
pub mod invocation_output;
pub mod supervisor;
pub mod work_queue;
pub mod host_diagnostic;
pub mod path;
pub mod config_store;
pub mod versions;
pub mod package_error;
pub mod manifest;
pub mod package;
pub mod archive;
pub mod digest;
pub mod activation_trace;
pub mod host_messages;
pub mod host_config;
pub mod runtime;
pub mod lifecycle;
pub mod worker;
pub mod prompt_wait;
pub mod protocol_steps;
pub mod jsonc;
pub mod transactions;
pub mod invocation_result;
