# floorp_installer

The decisions of a Windows setup program for the Floorp browser, verified with Verus.

`src/` is the library. A session is a sequence of steps (`session::SessionStep`): each step says
what is to be done next, and the event that answers it leads to the following step. The check of
the installer's signature (`signature`) and the run of the installer (`install`) are steps of the
same kind, and so is the search for the installed browser (`launch`). The functions that take a
step and an event to the next step carry the relation between them as their contract; the `law_`
functions state what holds of every sequence of steps, above all that a file is run only after
Windows has called its signature valid and its signer was found among the trusted ones.

`app/` carries the steps out: HTTP, files, processes, the Windows API, and the Tauri commands.

JSON is parsed by `serde_json`, and the output of the elevated script is decoded by the standard
library; what is taken on trust about these calls stands in the doc comments above them, in
`release.rs`, `elevated.rs`, `text.rs` and `wide.rs`.
