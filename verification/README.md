# screen_memory

The rules of Screen Memory, a local, rolling screen recorder: what is recorded when, how recordings
and window samples are named, kept, searched, exported and deleted.

* `src/` is the library. It opens no file and starts no thread. Every function carries a contract,
  which Verus proves, and the public proof functions state what holds of several functions together.
  What `chrono` and a few functions of std return is taken on trust: their wrappers, most of them in
  `src/clock.rs`, say in their doc comments what is claimed.
* `tests/` runs the library on concrete values.
* `app/` puts the library to work in a desktop application: it reads and writes the storage folder,
  runs the worker that rotates segments, and offers the commands to Tauri.

| module | what it decides |
| --- | --- |
| `config` | bounds of the settings, and what each command makes of them |
| `capture` | whether a recording may start, and which way of recording is taken |
| `runtime` | the segment in progress; the steps of starting, rotating and stopping |
| `rotation` | how long the worker waits, when it takes samples, and when it ends |
| `segment` | ids, file names, and what is written down of a finished segment |
| `event` | samples of the active window, and the search through them |
| `catalog` | stored segments: finding, pruning and deleting them |
| `deletion`, `removal` | the steps of a deletion, file by file, and what is left after it |
| `query`, `export` | searching, and copying the latest recordings |
| `status` | what the user is told |
| `clock`, `order`, `text` | stamps and cutoffs, the stable newest-first sort, text primitives |
