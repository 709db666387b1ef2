# cursor_kit

Tools for building cursor themes: pixmaps and their conversions and
transforms, PNG images, the RIFF, ICO/CUR, ANI and Xcursor container
formats, the cursor model written out as Windows and X11 cursor files, and
the theme configuration.

The library under `src/` is written in Verus; every function there carries a
contract that the verifier proves. Calls into the `png`, `indexmap` and
`byteorder` crates go through small trusted wrappers whose contracts say
what those crates do.

- `src/formats/raster`: pixmaps, pixels, conversions, transforms, palettes,
  PNG decoding and encoding.
- `src/formats/containers`: RIFF chunks and ICO/CUR directories, read and
  written.
- `src/formats/cursors`: CUR, ANI and Xcursor files.
- `src/cursor`: the cursor model, hotspots and durations, and the Windows and
  Xcursor writers.
- `src/config`: aliases, assets and the decisions that turn the fields of a
  configuration table into a value.
- `src/pixmap_png`: decoding and encoding pixmaps with the PNG crate's own
  errors.

`app/` holds what stays outside the verifier: reading files and streams,
serde deserialisation of the configuration, error messages, and the
conversions that compute with floating point (luminance, jiffies).
