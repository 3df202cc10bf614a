# rok — Run One, Know All

`rok` runs multi-step tasks described in JSON: shell commands, file edits,
searches, templates, git and HTTP calls, with conditions, loops and
references from one step to another.

This crate is written in Verus.  `src/` is the library, every function of it
verified against its `requires`/`ensures` contract:

- `schema`, `results`, `json`, `record` — the task format, step records, JSON
  values and the JSON text of a run's record, fields in declaration order;
- `runner`, `refs` — placeholders, references between steps, conditions, the
  bookkeeping of a run and its status;
- `steps`, `lint`, `imports`, `boilerplate`, `templates`, `discovery` — what
  each kind of step computes and reports;
- `output`, `progress`, `preview` — the reports of a run;
- `cli`, `config`, `cache` — the command line's decisions and the run's start;
- `migrate`, `orm` — SQL migrations and a query builder;
- `codegen`, `docs` — the model/API generators and the documentation tool;
- `compare`, `test_env` — helpers for tests: JSON containment and
  differences, the record of environment variables to put back;
- `text`, `casing`, `paths`, `filters`, `option_ext`, `error` — helpers over
  strings, paths, words and errors.

Calls into other crates (serde_json, tera, chrono, heck, similar, globset,
regex) and a few std functions stand behind small trusted wrappers whose contracts say what those
crates document.

`app/` is the `rok` program around the library: argument parsing, reading and
writing files, running processes and HTTP requests, the terminal.  `tests/`
exercise the library.
