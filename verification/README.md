# geodot

The verified core of a geodata plugin for the Godot engine that reads rasters
and vector layers through GDAL.

- `src/` is the library, written in Verus: geometry classification, feature
  records and the holder that identifies features by their state, attribute
  maps, raster format detection, tile window arithmetic, band interleaving,
  histograms and most-common values, image format choices, subdataset and
  EPSG name handling, feature id allocation, and the decisions the engine
  classes take on these results. `src/laws.rs` states the properties that
  span several functions.
- `tests/` runs the library on concrete values.
- `app/` is the engine-facing side: the Godot classes, the GDAL reads and
  writes, and the floating-point geometry (coordinates, extents, normal maps),
  which hand plain values to the library and act on what it returns.
