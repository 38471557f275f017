# os-watchdog

A watchdog for a small fleet of machines. Each agent collects network, disk and
health readings once a second; the main instance shows them in a terminal and
over an HTTP API, and deploys agents to other machines over SSH.

- `src/` is the library, written in Verus: every function has a contract that is
  proved. What it takes from other crates (AES-GCM, Argon2, JSON Web Tokens, JSON,
  calendar dates) stands behind small wrappers whose contracts say what is relied
  on.
- `app/` is the program around it: command line, files, database, SSH, web server
  and terminal.
- `tests/` runs the library on concrete values.

| module | subject |
| --- | --- |
| `text`, `table` | strings by their characters, values by name |
| `diskstats`, `smart`, `collector`, `data` | reading the machine |
| `crypto`, `token`, `clock`, `auth` | secrets, sessions, access |
| `db`, `nodes`, `config` | statements, watched machines, configuration |
| `deploy` | the phases of a deployment |
| `json` | the model of JSON values |
| `ui` | what the terminal shows |
