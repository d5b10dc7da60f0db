# sistema_ventas

A point-of-sale catalogue and sale system, verified with Verus.

- `src/` is the verified library:
  - `texto`: characters of strings, equality without regard to ASCII case,
    substring search, the order of strings, and reading integers as
    `str::parse` does.
  - `numero`: decimal quantities, held by the bit pattern of their double.
  - `codigos`: the map from supplier name to product code, and its reading
    from the product form.
  - `principal`: a simple point of sale (products read from the product
    form, two sales, supplier names).
  - `catalogo` and `sistema`: a point of sale with a catalogue (catalogue,
    suppliers and relations, settings, sales in progress, sales put aside,
    closed sales), with the laws that relate its operations.
- `app/` is the desktop program around the library: reading and writing the
  JSON files, reading decimal fields, and the commands of the window.
- `tests/` runs the library on concrete values.
