# demo-ghostprovider

A local-first hosting panel that builds three curated services and runs them as
hardened systemd user services.

`src/` is the library: the rules of the panel, each with a contract that Verus
proves. It reads no files, runs no commands and opens no sockets; it is handed
plain values and says what is to be done.

| module | what it decides |
| --- | --- |
| `text` | operations on text, with the definitions the contracts are stated in |
| `paths` | where files lie, and which directories may be wiped |
| `logfile`, `crashlog` | bounded logs, and the history of interruptions and removals |
| `netlog` | what the network log records of a request |
| `hoster::units` | unit files, names, quoting, the commands to the user manager, and whether a service came up |
| `hoster::journal`, `hoster::lock`, `hoster::cancel` | what is in flight, and who may act |
| `hoster::resolver`, `hoster::ip` | the DNS-over-HTTPS fallback |
| `hoster::deploy` | the pipeline, the deploy of one service, and the cleanup after it |
| `tui`, `tui_v2` | the panel: keys, messages, log followers, and what is drawn |

The functions named `law_*` state what holds across several functions: that
only the pinned commit is built, that a failed deploy is rolled back, that a
live service is never torn down, that nothing is deployed or deleted without an
explicit Enter.

`app/` is the program around the library: the terminal, files, processes and
sockets. It carries no isolated build environment, so it refuses every deploy;
one is plugged in by implementing `pipeline::BuildTools`.

`tests/` runs the library on concrete values.
