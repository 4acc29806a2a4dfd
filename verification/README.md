# econym

A minimal reverse geocoder that returns the name of the nearest populated
place for a coordinate, built from the Overture Maps divisions theme.

- `src/` is the verified library (Verus):
  - `columns.rs`: the columns of a record batch as plain values, with the
    well-formedness that Arrow guarantees and run-time checks of it;
  - `naming.rs`: which subtypes are skipped, and how a place's name is
    built from its division hierarchy;
  - `batch.rs`: the places that a batch offers, in row order;
  - `place.rs`: a place, with its coordinates as binary64 bit patterns;
  - `table.rs`: the table of places, how a new place is merged into it
    (replacing a near neighbour or appended), and lookup by index item.
- `app/` is the program around it: the command line, reading GeoParquet,
  the binary64 KD-tree and distance formulas, the rkyv file format and the
  HTTP server.
- `tests/` exercise the library on concrete values.
