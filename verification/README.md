# bricke

Generation of `From` and `TryFrom` conversions between structs or enums,
configured by `#[bricke(..)]` on the target item and `#[bricke_field(..)]`
on its fields or variants, with the generation logic verified by Verus.

- `src/` — the verified library: the token grammars of both attributes
  (`token`, `attributes`, `fields`), the entries and arms of the conversion
  (`fields::structure`, `fields::enums`), the items (`item`), the checked
  entry points (`expand`) and the properties proved of all inputs (`laws`).
  `syntax` holds the few facts taken from `syn` and `unicode-ident`.
- `app/` — the attribute itself: reads the item with `syn`, hands plain
  values to the library, and emits the item with the generated conversion.
- `tests/` — the library run on concrete inputs.
