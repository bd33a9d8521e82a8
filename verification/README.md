# lient_core

The engine of Lient, a personal Jira daily-driver: what it sends to Jira, how
it reads the answers, the in-memory demo Jira, OAuth sign-in, and what the
command-line and desktop front ends show and decide. Verus proves every
function in `src/` against its contract; the few calls into std, `getrandom`
and `sha2` sit in small wrappers whose doc comments say what is taken on trust.

## Layout

- `src/api.rs` — the `Jira` trait, the seam the front ends talk to, and its
  errors.
- `src/config.rs` — connection config, the `Authorization` header, REST,
  service-desk and browse URLs.
- `src/client.rs` — the REST requests each Jira call makes, planned as plain
  values (method, URL, headers, query, JSON body), and the reading of answers.
- `src/model.rs`, `src/json.rs` — issues, transitions, field metadata and JSON
  values, each with a mathematical view.
- `src/mock.rs` — the demo Jira, an implementation of `Jira`: fixtures,
  workflow and writes that are read back.
- `src/oauth.rs` — PKCE, the authorize URL, the loopback redirect, token
  answers.
- `src/cli.rs` — the command line's commands and printed lines.
- `src/gui.rs`, `src/dialog.rs` — the desktop app's rows, detail pane, login
  form, palette, and its transition / edit / create dialogs.
- `src/text.rs`, `src/encoding.rs` — characters, base64 and percent encoding.
- `app/` — the `lient` command: HTTP (renewing an expiring OAuth token first,
  as `oauth::auth_step` decides), files, the browser, serde, and the live
  implementation of `Jira`.
- `tests/` — tests of the library on concrete values.

## Run

```bash
lient --demo list
lient --demo view ACME-101
LIENT_URL=https://you.atlassian.net LIENT_EMAIL=you@co.com LIENT_TOKEN=xxx lient whoami
```
