# substrate

Pieces of an analog and mixed-signal circuit generator framework, written in Verus with
their behaviour stated as contracts and proved.

## Layout

- `src/` — the verified library.
  - `geometry` — spans, points, rectangles and dimensions, with laws of union,
    intersection, distance and transposition in `geometry/laws.rs`.
  - `gds` — a GDSII stream reader: records are decoded from bytes (`read`), structures
    are located without decoding their elements (`scan`), and whole libraries are parsed
    (`parse`). Each is stated against a byte-level specification of the format.
  - `rawfile` — the variable table of a SPICE raw file header.
  - `cache` — the bookkeeping of a persistent cache server, as a state machine that
    decides each request and commits it once the server has persisted its effect.
  - `atoll`, `atoll2` — routing-grid coordinates, cell abstracts (with the routing
    points that ports obstruct) and PDK validation.
  - `layout` — unique cell names for GDS export.
  - `io`, `schematic`, `scir` — signal bundles, flattening, node priorities, the
    conversion of raw schematic cells to library cells (`schematic/conv.rs`), validation
    of circuit libraries, and SPICE-like netlisting, stated as the exact text written.
  - `sky130`, `pdk` — SKY130 layers and their GDS numbers, transistor flavours and tiles,
    and an example PDK.
  - `execute`, `simulation` — LSF submission commands and simulation save keys.
- `tests/` — tests of the library on concrete values.
- `app/` — what cannot be verified: file access, processes, threads, JSON output,
  writing netlists to sinks, the union-find table and the in-memory cache.
