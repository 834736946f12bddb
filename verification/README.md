# wtch

A status watcher: it polls services (scripts, HTTP endpoints, status pages,
JSON APIs, HTML pages), turns what they answer into a status per watch and per
component, and shows the worst one.

## Layout

- `src/` is the library, written in Verus and verified. Each public function
  states what it returns in its `ensures`; the laws of the library (how
  statuses combine, that reordering only permutes, that adapter data reads
  back as it was written, ...) are public proof functions named `law_*`.
  - `state`, `tray`: statuses, their order of severity, the worst of many.
  - `expr`: the condition language: lexer, parser, field access.
  - `json`, `strmap`, `path`, `text`: the values the logic works on.
  - `config`, `preset`, `config_file`, `yaml`: the configuration, presets,
    and the edits of the configuration file's YAML document.
  - `adapter`, `provider`, `shell`, `watcher`: from a provider's answer to
    the state of a watch.
  - `scheduler`, `logging`: intervals, ordering, log lines.
  - `pattern`: putting text back together around regular-expression
    matches (display templates, environment variables in headers).
- `app/` is the command-line program around the library: files, processes,
  HTTP, the environment, YAML and JSON (de)serialisation, and the
  floating-point arithmetic of the condition language and of number display.
- `tests/` runs the library on concrete inputs.
