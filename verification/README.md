# muskitty_cssom

CSS Object Model (CSSOM Level 1) data structures and serialization, with
contracts proved by Verus.

- `src/syntax.rs` — the syntax layer a CSS parser produces (tokens,
  component values, declarations, rules, style sheets) and its models.
- `src/convert.rs` — the one-way conversion from the syntax layer to the
  CSSOM: at-rules dispatched on their name up to ASCII case, bare
  declaration runs merged into their style rule or dropped.
- `src/declaration.rs`, `src/rule.rs`, `src/stylesheet.rs` — declarations
  and declaration blocks, the rule types, style sheets.
- `src/serialize.rs`, `src/rule_css.rs` — serialization (identifiers,
  strings, URLs, component values, declarations, rules, sheets).
- `src/element_style.rs` — `getPropertyValue` / `setProperty` /
  `removeProperty` on a declaration block, for an element's `style`
  attribute.
- `src/text.rs` — string helpers (trimming, ASCII case, number text).
- `app/` — glue to the parser crate (its syntax trees become the library's
  syntax types; numbers are written out from floating point there) and to
  the DOM crate (`ElementStyle` on elements).
