# anki_forge

Typed authoring of Anki notes and note types, lowering of product documents
to an authoring document, media registration, template checks and
import-risk classification — with the rules of each stated as Verus
contracts and proved.

## Layout

- `src/` — the verified library.
  - `text.rs`, `str_map.rs` — strings as character sequences, and a map
    keyed by strings in ascending order.
  - `diagnostics.rs`, `build/`, `diff.rs`, `risk/` — diagnostics, build
    statuses, semantic diffs and the import-risk rules and policy.
  - `note/` — content, stock models and notes of the deck-side API.
  - `product/` — the product API: note types and notes, media registry,
    template syntax and checks, template bundles (the note type a bundle's
    manifest and files declare), helpers, documents (legacy and product-v2),
    the lowering of both kinds of document (for product-v2 notes whose
    identity must be derived, lowering stops with an identity request that
    `finish_v2_note` completes), and the project
    (`product/project/`): validation, where lowered fields and note types
    came from, missing media references, media preparation (inline, or
    staged as files) and which build paths must not alias.
  - `prepared_media.rs` — which authoring media a build prepares, and in
    which order.
- `app/` — file reading, media staging, path checks on the file system,
  template-bundle loading (YAML parsing and file resolution) and JSON
  parsing around the library.
- `tests/` — tests of the library's behaviour on concrete values.

Calls into `sha1`, `blake3`, `base64` and `hex` are made through small
trusted wrappers in `src/product/digest.rs`, and four std calls (`String::push`,
`Debug` formatting of a string, `Path::extension`, `Path`
equality) through wrappers in `src/text.rs`, `src/product/assets.rs` and
`src/product/project.rs`; every other function in
`src/` is verified.
