# iced_aksel

Core of a charting widget for iced, written in Verus.

- `src/` is the verified library: triangle-mesh topology and the fast-path
  tessellator (`mesh`, `topology`, `manual`), render caches and chart memory
  (`cache`, `memory`), the interaction registry (`interaction`), the glyph
  cache and font parsing (`text`, `font`), axis rules and label ordering
  (`axis`), line end treatments (`shape`) and radii arithmetic (`radii`).
  Calls into `indexmap`, `rapidhash`, `lru`, `ab_glyph` and `ttf-parser` go
  through small trusted wrappers whose contracts are stated next to them.
- `app/` holds the floating-point side: screen-space hit testing, vertex
  placement, lyon stroking, earcut triangulation, glyph layout and styles. It
  computes coordinates and hands them to the verified code.
- `tests/` exercises the library on concrete values.
