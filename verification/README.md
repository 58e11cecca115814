# openscenario

A library for building OpenSCENARIO driving scenarios (entities, initial
positions and speeds, parameters, and the storyboard of stories, acts,
maneuver groups, maneuvers, events, actions and triggers), reading vehicle,
pedestrian and object catalogs, checking positions against an OpenDRIVE road
network, validating documents against XSD schemas, and the operations of a
scenario-authoring tool server. The library is written in Verus: each public
function states what it does in its contract, and Verus proves it.

Layout:

- `src/` — the verified library. `scenario.rs` and `editing.rs` hold the
  builder and its storyboard edits, `service.rs` the tool operations on the
  server's state, `laws.rs` the properties that span several operations,
  `document.rs` the reader of OpenSCENARIO documents and `catalog.rs` that of
  catalogs. Numbers are carried as binary64 bit patterns (`quantity.rs`);
  reading decimal text into them is left to the caller, who hands the reader
  a table of the attribute texts that denote numbers.
- `tests/` — tests of the library on concrete values.
- `app/` — the tool server itself: the JSON-RPC transport over stdio, the
  tool definitions, reading files, and the formatting of numbers in replies.
