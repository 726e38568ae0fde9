# magic_map

Declaration-site, fallible struct/enum mapping, with its planning logic
verified in Verus.

`magic_map!(Src => Dest { overrides })` declares a mapping at the call site.
Every destination field without an override is filled from the same-named
source field through the `TryMapFrom` leaf funnel; `magic_map!(infallible ..)`
declares a mapping that cannot fail (`MapFrom`). Enum mappings pair variants by
name, with `Src => Dest` renames and the proto3 `Unspecified` variant folding
to the destination's default. `..Default::default()` lets absent fields fall
back to the destination's `Default` (`..AnyDefault` is the same trailer;
`..DeclaredDefaults` only lets fields that declare `#[default(..)]` be left out,
and names every field that does not).

## Layout

- `src/` — the verified library.
  - `error.rs`, `funnel.rs`, `leaves.rs`, `catalog.rs`, `unvalidated.rs`,
    `text.rs`: the runtime half — the error type, the `TryMapFrom`/`MapFrom`
    funnel with its identity, widening, `Option`/`Vec` and third-party leaves,
    the defaults-trailer field tiers, and a model catalogue with its own leaves
    and sealed destinations.
  - `tokens.rs`, `rust_syntax.rs`, `shape.rs`, `input.rs`, `front.rs`,
    `schema.rs`, `derive_text.rs`, `expand.rs`, `expand_laws.rs`, `seqs.rs`:
    the planning half — reading a declaration as token trees, the derive's
    schema (from the item's text), and the expansion plan of each
    declaration, with the laws every plan obeys.
  - `emit.rs`: the tokens each plan, each front-end declaration and each
    derived schema is written out as, as a flat run with the declaration's
    own tokens spliced in by span.
  - `lint.rs`: the conversion-impl lint — a file's impl items read from its
    text, which impls are flagged, how the allowlist reads, what a run reports.
- `app/` — the compiler and file-system glue: token conversion in both
  directions, the wording of errors, and the `magic-map-lint` binary's I/O.
- `tests/` — the test suite.
