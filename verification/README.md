# font-awesome-embed (verified core)

Embeds Font Awesome 7 SVG icons: the `fa!("house", solid)` macro expands to
the processed SVG, and `fa-vendor` writes a typed TypeScript module of the
icons a manifest lists.

- `src/` is the library, verified with Verus:
  - `family` — families and styles, their names and API values, the class rule;
  - `postprocess` — SVG post-processing and class injection, with proofs that
    processed SVGs hold no comment, carry the embedding attributes and the
    `fa-svg` class token, have normalized whitespace, and come back unchanged
    when processed again;
  - `fetch` — name and release validation, the cache layout, placeholders and
    the cache-then-fetch protocol `get_icon`, which the caller drives;
  - `api` — the GraphQL request, retry decisions, reading responses;
  - `fa_input` — the rules of the `fa!` arguments and what an invocation
    expands to;
  - `vendor` — TypeScript identifiers, escaping (which a template literal reads
    back as the input), and module generation through a builder whose
    identifiers stay distinct;
  - `text` — the character-sequence model the others are stated in.
- `app/` holds the I/O: the `fa-vendor` command line, the on-disk cache, the
  HTTP transport, and the `syn` front end of the macro.
- `tests/` exercises the library on concrete values.
