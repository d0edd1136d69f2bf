# pmtile_tool

A web service that cuts PMTiles basemap extracts (catalogue regions or
user-drawn polygons) from a planet archive, queues them as jobs, serves the
finished archives for download and expires them again.

## Layout

- `src/` is the verified library. It holds the rules of the service with
  their contracts: configuration defaults and data paths, the job model and
  its database row format, the step-by-step run of a job (files, extract, rename, status updates),
  the worker's next action,
  the seeding, download and region-extract decisions, the sweeper's
  least-recently-used eviction and file reconciliation, the region catalogue and reading it from the index text,
  geometry checks over plain summaries, API errors, tile-proxy header
  handling, UI asset lookup and release-version validation. Public proof
  functions (`lemma_*`) state the laws that hold across these functions.
- `app/` is the server around it: configuration file and user-polygon parsing,
  the SQLite job store, the go-pmtiles subprocess, the async workers and
  sweeper, and the axum router. It performs the I/O and hands plain values
  to the library.
- `tests/` exercises the library on concrete values.
