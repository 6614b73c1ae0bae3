# meh

Types and logic for clients of the meh.com deal API, verified with Verus.

- `src/` — the library: the API's data types (`deal`, `poll`, `video`,
  `timestamp`, `Response`, `Topic`), `construct_url`, the countdown and deal
  display lines of the watcher and its request schedule (`watch`), the
  decisions of the alerting monitor (`schedule`), decimal text helpers
  (`text`) and the `mod_main` entry point of a build without the command line
  (`entry`).
- `app/` — the `meh-cli` program: command-line arguments, the HTTP request,
  JSON decoding, the clock, sleeping and the progress bars.
- `tests/` — tests of the library on concrete values.
