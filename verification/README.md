# glab_tui

A terminal client for GitLab projects. The library under `src/` holds the client's
logic, verified with Verus; `app/` is the program around it (terminal, events, HTTP,
files).

- `src/app.rs`: the client state, tab cycling and key handling.
- `src/event.rs`: the timing decision of the event loop (wait for input, tick).
- `src/table.rs`: a list with a cursor that wraps around.
- `src/ui.rs`: title bar, help line, search filtering (fuzzy on the merge-request tab), colour classes and detail panes.
- `src/gitlab/`: the API data types, remote-URL parsing and API endpoints, and merging of
  paged job lists.
- `src/utils/format.rs`: truncation, ref names, relative times, decimal numerals.
- `src/utils/markdown.rs`: markdown lines to styled spans.
- `src/utils/cache.rs`: cache file names and the list of recent repositories.
- `src/utils/text.rs`: character-level helpers shared by the above.
