# datir

The runtime library of DATIR, a dynamic abstract type inference for Rust,
verified with Verus, and the compiler driver around it.

A program instrumented by DATIR pairs every primitive value with an id
(`Tagged`, `TaggedValue`). Whenever values interact, their ids are joined in a
union-find of values (`UnionFind`, `ATI`). At the entry and exit of each
function a `Site` records which variable held which value; updating the site
joins, in a union-find of abstract types, the variables whose values
interacted. The report lists, per site, each variable with the leader of its
abstract type, so that variables of one type share one label.

## Layout

- `src/`: the verified library.
  - `union_find.rs`, `uf_model.rs`, `tagger.rs`: the union-find with union by
    rank and path compression, against its mathematical model.
  - `site.rs`, `analysis.rs`: sites, the update of abstract types, the analysis
    and its report.
  - `tagged.rs`, `tagged_value.rs`, `index.rs`, `collection.rs`,
    `site_binds.rs`: tracked values, arrays, slices and ranges; their lengths,
    iteration, indexing, ids by nesting level, and binding to sites.
  - `ati_info.rs`, `first_pass.rs`, `span_key.rs`: what the gathering
    compilation learns, keyed by plain values.
  - `operators.rs`, `rewrite.rs`, `expr_plan.rs`: how operators join tags,
    which rewrite each kind of expression gets, and the text of the rewritten
    expressions, borrows and calls.
  - `ty_shape.rs`, `signatures.rs`, `stubs.rs`: the shapes of written types,
    which of them the wrapping of primitives in `Tagged` takes and what it
    makes of them; the rewriting of tracked functions' signatures; and the
    record of signatures and type definitions that stubs are made from.
  - `hoisting.rs`: which receivers of a `let`'s initialiser move into
    bindings of their own, and the names of those bindings.
  - `names.rs`, `text.rs`, `levels.rs`: name order, decimal text, level lists.
  - `laws.rs`: properties that relate several operations.
- `tests/`: tests of the library.
- `app/`: the compiler driver, which needs rustc's private crates.
