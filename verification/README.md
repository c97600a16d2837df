# polish

A server-authoritative web UI toolkit: the server renders every page as HTML,
live updates travel as fragments over server-sent events, and forms carry
single-use CSRF tokens and validation with readable messages. The library is
written in Verus, and each public function states what it returns in its
contract.

## Layout

- `src/markup` — the HTML writer, escaping, attributes, pages and the `Render` trait.
- `src/style` — design tokens, built-in themes and the generated stylesheet.
- `src/actions` — form parsing, validation, CSRF tokens, form components and the action pipeline.
- `src/state` — a server-side state machine with guarded transitions.
- `src/live` — server-sent events, live fragments, channels and the live runtime.
- `src/server` — server configuration and the broadcast bus.
- `src/docs` — API specs, the OpenAPI document and the documentation site.
- `src/capabilities` — where each field may appear, and leakage scanning of HTML.
- `src/agent` — agent tasks, permissions, reviews and the audit log.
- `src/testing` — assertions on HTML, actions, state machines and snapshots.
- `src/text.rs`, `src/strmap.rs` — text helpers and a small string map.
- `app/` — the `polish` command-line tool, agent providers and registry,
  numeric validation rules, snapshot files and the JSON export of the
  capability matrix.
- `tests/` — tests of the library.
