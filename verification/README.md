# aynur-deploy

A service that receives Gitee tag webhooks and deploys tags: it fetches the tag that was pushed,
builds a release, switches a symbolic link to it atomically, checks the health of what is deployed
and rolls back where the check fails. One service manages many projects; deployments are processed
one after the other in the order in which they were queued.

- `src/` is the library, verified with Verus: the configuration and its rules, the stored
  deployments and projects, the steps of a deployment, what is done to the file system, what a
  webhook is answered, and the commands of the command line.
- `app/` is the program around it: the command line, the HTTP server, SQLite, Git, Cargo and the
  file system.
- `tests/` holds tests of the library.

## How the library is laid out

| Module | What it holds |
| --- | --- |
| `text`, `path` | texts and Unix paths, with the orders and the containment of paths |
| `error` | the errors, with their codes, HTTP statuses and messages |
| `pattern`, `stamp` | regular expressions; times and identifiers |
| `model` | deployments and project states, and their stored rows |
| `config` | the global and the project configuration, and what makes them valid |
| `environment` | environment files of builds and migrations |
| `process`, `health` | what running a command and probing a URL come to |
| `release` | how releases are filled, checked and switched to |
| `deploy` | a deployment as a machine of steps, actions and replies |
| `db` | the stored deployments and projects, and every operation on them |
| `web` | webhooks |
| `cli` | the commands of the command line |

A deployment is a `deploy::run::Run`. `action` says what is to be done next, the program does it,
and `resume` takes what came of it. The modules named `laws` state what holds of every
configuration, every database and every run, whatever is replied.

## What is trusted

Texts printed by `{:?}` and bytes decoded by std, regular expressions, URLs, environment files,
times and identifiers come from std, `regex`, `reqwest`, `dotenvy`, `chrono` and `uuid`. Each such
call stands in one function marked `external_body`, with a contract that says what is taken from
it.
