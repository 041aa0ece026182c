# causal_dag

Causal graphs of a session's events and of its research record: read from events and from
observers' hints, revised, checked, summarised for a bounded slot, projected from an
append-only research record, and rendered as JSON, Markdown, DOT, SVG and HTML. Beside them
stand the briefs and reports of research objectives.

`src/` is the library. Every function of it is verified by Verus against its contract, and
the laws that relate several functions are public proof functions beside the code they speak
of. What the library takes from `serde_json`, `sha2` and the standard library without proof
stands in `json`, `digest`, `text`, `observer_apply`, `projection::sources` and
`research_observer::lines`.

`app/` is the extension around it: the host's calls, the files of the active states, and the
coordinates of drawings.

`tests/` runs the library on concrete graphs, records and inputs.
