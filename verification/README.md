# cxs

Bounded, budgeted search over a project tree with ripgrep: content search
(line hits or, page by page, the files that match), file listing, symbol
definitions, and structured search over JSON, JSON-lines, CSV and TSV
records. Every result stays within a budget of hits, characters and
records, and says when and why it was cut short.

The library in `src/` is verified with Verus. It decides everything that can
be decided from plain values: how requests read, which globs and commands
run, how ripgrep's output becomes hits, pages and follow-up suggestions,
which records a data search selects and what it shows of them, and when a
search stops. Its contracts state these results exactly; laws about budgets,
paging, excludes and requested paths are proved as proof functions.

`app/` holds what the library leaves to the caller: running ripgrep with a
deadline, reading files, the environment, JSON in and out, the command line,
the tool server, and the `rg` stand-in.

Modules of the library:

- `text`, `json`, `ordering`: characters and strings, JSON values and
  request arguments, code-point order.
- `budget`: the default budget and clamping.
- `scope`, `paths`: scope globs and default excludes; requested paths.
- `process`: the output collector of a ripgrep run.
- `find`, `scan`: content-search requests, commands and reports.
- `files_only`: files-only search, paging and staged all-terms search.
- `files`: file listing.
- `symbol`: symbol patterns and symbol requests.
- `records`, `datasearch`: data files, records, and the record search.
- `ops`: operation names, the tool protocol, and the `rg` stand-in's plan.
