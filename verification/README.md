# font_generator

Generates compact 4-bit alpha bitmap font data (C metrics tables, a C
fixed-cell header, or a Rust module) for microcontroller firmware from
project character lists and a TTF/OTF font.

Layout:

- `src/` — the library, verified with Verus: settings resolution and
  validation (`config`), display-unit collection (`chars`), 4-bit
  quantization and packing (`alpha`), renderability planning and per-size
  model assembly (`font`, `model`), and rendering of every output file
  (`output`, `output::c`, `output::rust`). Laws about these functions stand
  beside them as public proof functions.
- `app/` — the command line program: argument parsing (`clap`), reading the
  TOML configuration (`serde`, `toml`), the file system, glyph rasterization
  (`fontdue`, floating point) and writing the rendered files.
- `tests/` — tests of the library on concrete values.
