# near_old_stations

Lists the stations near the commander whose market, shipyard, outfitting or
general information in the EDSM dumps is outdated, so that a visit refreshes it.

## Layout

- `src/` — the verified library (Verus):
  - `time.rs` — instants, station ages in whole days, date parsing (through chrono);
  - `stations.rs` — station types and economies, the dump's line decoder, merging
    system positions into the station list;
  - `searcher.rs` — ages of station data, records, the search over stations;
  - `filter.rs` — the filters on records and their laws;
  - `config.rs` — the configuration, the filters it calls for, command line options;
  - `journal.rs` — docked markets and the scan of the game's journal files;
  - `download.rs` — the table of entity tags kept for downloads;
  - `patterns.rs` — regular expressions (through the regex crate);
  - `stats.rs` — histograms of data ages, and leaving out excluded stations;
  - `printer.rs` — what the listing shows;
  - `mode.rs` — the update loop that decides when the listing is refreshed, and
    its law over runs.
- `app/` — the program: files, HTTP, the command line, the terminal, and the
  floating-point geometry (coordinates, distances, scores).
- `tests/` — tests of the library.

Coordinates and distances are type parameters of the library's station and record
types; the program instantiates them with its floating-point types.
