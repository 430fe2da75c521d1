# perry-container-compose

A Docker-Compose-like tool for the Perry toolchain, with its logic verified
in Verus: compose-file models, `.env` parsing and `${VAR}` interpolation,
dependency ordering, container naming, container-CLI argument lists and
reply readers, the step decisions of `up`/`down`/`exec`, and the SwiftUI
source emitter for widgets.

## Layout

- `src/` — the verified library. Each public function states what it
  returns in `ensures`, over spec functions and views.
  - `strs`, `text`, `args`, `strmap` — strings, text scanning, argument
    lists, and `StrMap`, a string map that keeps insertion order.
  - `orchestrate/` — `.env` and interpolation (`env`), the dependency graph
    and its orders (`graph`, `names`, `deps`), and the decisions of each
    orchestration step (`steps`).
  - `entities/`, `types` — the compose-file models.
  - `compose`, `service`, `config` — start-up order, container names and
    labels, project configuration.
  - `up` — the sequence of `up` as a step function: from the engine's state
    and the outcome of the last backend call, the next call to make.
  - `backend`, `container_cli`, `json` — argument lists of the container
    CLIs and the reading of their JSON replies.
  - `widget`, `emit`, `swift` — the widget tree and its SwiftUI source.
  - `digest`, `env`, `error`, `codegen`, and the remaining small modules.
- `app/` — the command-line program: file and process I/O, async
  orchestration loops, serde models of the files, and float formatting.
- `tests/` — tests of the library.

Calls into md5, hex, rand, regex and serde_json stand behind small trusted
wrappers whose contracts name their results.
