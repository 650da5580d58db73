# nanika

The verified core of the Nanika launcher host.

- `src/` is the library, written in Verus: configuration boundaries
  (`config_store`, `jsonc`, `registry`, `host_config`), extension packages
  (`manifest`, `package`, `archive`, `digest`, `lifecycle`,
  `transactions`), the extension
  runtime's decisions (`work_queue`, `invocation_output`, `supervisor`,
  `runtime`, `prompt_wait`, `protocol_steps`, `worker`,
  `invocation_result`), and host
  diagnostics and messages (`host_diagnostic`, `host_messages`,
  `activation_trace`). Each public function states what it returns in its
  contract, and the laws that relate several functions are proof functions.
- `tests/` runs the library on concrete values.
- `app/` holds the file-system, serialization, archive and logging work
  around the library.

Calls into `sha2`, `semver`, `jsonc-parser`, `uuid`, `global-hotkey` and
`std::path` go through
small trusted wrappers whose contracts name the outside results.
