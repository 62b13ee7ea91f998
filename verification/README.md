# bbm

A client library and command-line tool (`bbmctl`) for the Breitbandmessung
broadband measurement service of the German Bundesnetzagentur: listing
providers and plans, running speed tests, keeping a local history of
measurements, and running the 14-day measurement campaigns
(Nachweisverfahren).

The library in `src/` is verified with Verus. Its modules:

- `api`, `listing`: endpoint paths, response checks, provider and plan selection
- `retry`: the retry policy of the API client (which failures, how long to wait)
- `campaign`, `report_days`: the campaign rules (gaps between measurements,
  the 14-day window, completion) and the per-day grouping of a report
- `import`, `csv_row`: reading measurement CSV rows by column name and
  deciding what an import does with repeated timestamps
- `config`, `cli`, `schedule`: configuration profiles, the decisions of the
  commands, and the scheduled test loop
- `duration`, `timestamp`, `table`, `exporter`, `text`: durations like
  `1h30m`, canonical timestamps, table layout, the metrics endpoint's
  answers, and text helpers
- `calendar`: the canonical timestamp text read as a Gregorian date and
  time, and the proof that such texts sort in time order
- `testutil`: raw HTTP responses and the stub server handle used by tests

`app/` holds the program around it: argument parsing, HTTP, the SQLite
store, the speed measurement itself and output formatting. Tests are in
`tests/`.
