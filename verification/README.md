# tenon

TENON subscribes to MQTT topics, evaluates transform rules and routes the
results to configured destinations. This crate is its logic, verified with
Verus: the functions in `src/` carry contracts that the verifier proves.
Where a function hands work to a component that users supply (a worker
manager, a rule or client-id source), its contract says what it handed over
and what it did with the answer, over a ghost record of the requests made.

## Layout

- `src/` — the verified library.
  - `rules/` — the rule language: literals, identifiers, syntax tree and the
    semantic checks of parsed rules.
  - `loader/` — pipeline manifests: `{{NAME}}` placeholders, resource
    documents, reference resolution, and the static analysis of Lua scripts
    (parsed with tree-sitter) into message access plans.
  - `daemon/` — the pipeline daemon: revisions and their store, the
    lifecycle of deployments, request handling, worker protocol decisions,
    script state. The daemon keeps a ghost record of every request it makes
    of its worker manager and what came back (`manager_calls`), and its
    contracts say which workers and plans each operation hands over.
  - `coordinator.rs`, `dispatch.rs`, `ipc.rs`, `metrics.rs`, `cli.rs`,
    `config.rs`, `paths.rs` — the OSS engine: client ids, routing of results
    to sinks, the IPC wire format, metrics, command lines, configuration.
  - `codec.rs`, `transport.rs` — length-prefixed frames and transport rules.
  - `invocation.rs`, `extension.rs` — what a script invocation sees.
  - `text.rs`, `number.rs`, `table.rs` — text, numbers and a string-keyed
    table, with their specifications.
- `tests/` — tests of the library on concrete values.
- `app/` — the programs' side: files, environment, YAML and JSON, sockets and
  threads. It takes its decisions from the library (which consumer to
  serve, what a batch holds, what a frame is); what stays there is the
  plumbing round them, such as skipping a message whose size `usize` cannot
  count, and the thread and socket loops.
- There is no `main` here: the engines' entry points need `tenon_core` and
  the MQTT client, which this build does not have; `app/` holds the pieces a
  `main` calls (`cli_main`, `oss_config`, `ipc_sink`, `metrics_endpoint`).

Laws that relate several functions are public proof functions named
`law_*`.

## What is not here

- Parsing rule text into the rule syntax tree. That parser is generated
  from a grammar by `lalrpop`, and neither the grammar file nor the
  `lalrpop_util` crate is available to this build. The checks that follow
  parsing (`rules/semantic.rs`) work on the syntax tree and are verified.
- Reading a manifest's YAML documents: `Loader::load` takes the parser as a
  function from the expanded text to the documents, and `app/` hands it
  serde_yaml.

