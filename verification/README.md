# learnme

The library behind a flash-card study application: categories hold studies,
a study of the card method is a deck of cards scheduled with FSRS, and the
whole collection can be exported to and imported from a checksummed session
file.

## Layout

- `src/` — the verified library (Verus). It holds the rules of the
  application as functions on plain values, each with a contract:
  - `text`, `validate`, `error`: trimming as `str::trim` does, the checks on
    names and card sides, the errors and their messages;
  - `repo`: records prepared for storage (fresh identifiers, timestamps,
    trimmed sides, tags as JSON text) and the batch rule that a batch is
    refused whole for its first bad card;
  - `methods::anki`: reading a deck document and checking it against the
    deck schema, deduplicating the cards of a deck by their trimmed sides,
    and the inputs a review hands to the scheduler;
  - `commands`: the order in which the next card to study is chosen, the
    windows of the due forecast, and the input of the commands;
  - `stats`: cards per state and the one-year review heat map;
  - `session`: the session-file checksum, the export of the stored tree,
    the checks an import runs first, the rule that settles a card present on
    both sides, and the plan that drives an import one stored record at a
    time;
  - `adapters`: every call into an outside crate, each behind a trusted
    contract.
  Laws that span several functions are public proof functions whose names
  begin with `law_`.
- `app/` — plain Rust around the library: the SQLite store, file I/O, the
  FSRS scheduler (which computes in floating point), and the serde copies of
  the library's records.
- `tests/` — tests of the library on concrete values.
