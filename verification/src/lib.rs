//! Direct DOM access from WebAssembly: the handle table, the ABI and the decisions of the host.

pub mod bridge;
pub mod call_laws;
pub mod ctx;
pub mod error;
pub mod event_target;
pub mod failure_laws;
pub mod handle_laws;
pub mod handle_model;
pub mod handles;
pub mod host_functions;
pub mod import_object;
pub mod imports;
pub mod instance;
pub mod instantiate;
pub mod listener;
pub mod memory;
pub mod registry;
pub mod scope_laws;
pub mod script_execution;
pub mod servo_wasm_dom;
pub mod wasm_abi;
pub mod wasm_handles;
pub mod wasm_script;
