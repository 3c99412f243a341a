# wasm_dom

Direct DOM access from WebAssembly: the ABI, the handle table and the decisions of the host, as a
verified library.

A module reaches the DOM through host functions that take and return 32-bit integers. DOM objects
are handles into a table that belongs to the instance, strings travel through linear memory, and
failures are status codes. What makes that safe is proved here:

- a handle resolves exactly from when it is minted until it is released, and is stale from then on;
  it never comes to name another object, whatever pages, modules and events do;
- closing a scope of handles releases what was allocated inside it, so a fired event leaks nothing;
- a string or an error message that could not be delivered is kept until it is, and is delivered
  once;
- the code that a module is told on request is that of its most recent failure;
- a listener that is removed is the very object that its event target was given;
- a call on an instance that is torn down is refused, and only a host function that names no
  import traps;
- the import object offers every import, and a host function leads back to the import it was made
  for;
- a script starts its module only once everything before has succeeded, and reports what fails
  exactly once.

## Layout

- `src/wasm_abi.rs`, `src/error.rs`: status codes, handles as integers, bounds checks, strings.
- `src/handle_model.rs`, `src/handle_laws.rs`, `src/scope_laws.rs`: the handle table as a state
  machine, and its laws.
- `src/wasm_handles.rs`, `src/handles.rs`: the table itself, and the table of DOM objects.
- `src/memory.rs`, `src/instance.rs`, `src/ctx.rs`, `src/registry.rs`: linear memory, the state of
  an instance, arguments and results, and the instances of a global.
- `src/imports.rs`, `src/host_functions.rs`, `src/event_target.rs`, `src/bridge.rs`,
  `src/import_object.rs`: the host functions and how calls reach them.
- `src/failure_laws.rs`: what a module is told of its failures.
- `src/listener.rs`: events that reach a module.
- `src/instantiate.rs`, `src/wasm_script.rs`, `src/script_execution.rs`,
  `src/servo_wasm_dom.rs`: how modules and scripts are run.
- `app/`: the host against a JavaScript engine, which the embedder supplies.
