# tukituki

A terminal application that runs a project's processes side by side and shows their
logs: a sidebar with the targets and their folders, the log of the selected target,
a search in it, and keys to start, stop and restart. The row `otel-errors` counts and
blinks when the telemetry collector announces errors.

`src/` is the verified library. The application is a state machine: `App::handle`
takes it from one event to the next, and its contract says what each event makes of
the state, which requests it makes to the process manager and in which order, and
what it asks the event loop to do.

| Modules | |
| --- | --- |
| `model` | what the application holds, and what each event and key makes of it |
| `app`, `dispatch`, `input`, `keymap` | the application, its events and its keys |
| `handle`, `session`, `ops` | the process manager, the exchange with it, and the operations that run in the background |
| `rows`, `log_buffer`, `target`, `names`, `event` | the sidebar, the logs, the targets |
| `screen`, `view`, `area`, `highlight`, `spans` | what is on the screen |
| `dump`, `editor`, `fdlimit`, `subscriber`, `text` | where dumps go, the editor's command line, the limit on open files, staying subscribed to the collector, text |
| `log_laws`, `search_laws`, `row_laws`, `event_laws` | what holds over several operations |

`app/` is the program around it: the terminal, the threads, the child processes, the
collector's socket.
