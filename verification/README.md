# astro_grader

A library for sorting astrophotography frames: it groups picked FITS frames
into sessions by night and equipment, plans and books the calibration of each
session (master darks, flats and biases, then the light frames), keeps the
progress reports of calibration and grading runs, and applies file moves and
deletions to the state the front end shows. Its logic is written in Verus and
proved against the contracts stated in `src/`.

Exposure, gain and temperature are held as whole thousandths of their unit,
so that grouping, rounding to a step and the session keys are exact integer
computations. A value exactly halfway between two results is therefore
rounded by a fixed rule (to the even digit in labels and keys, away from zero
when rounding to a step), where a computation on the `f32` reading would go by
which side of the halfway point the binary number happens to lie: 0.165 s is
labelled "0.16", and 0.35 s groups at 0.4 s with a 0.1 s step. For the same
reason two readings exactly a hundredth apart always count as equal (100.01 s
matches 100.00 s), and zero has no sign: -0.04 rounded to a 0.1 step is 0,
keyed "0.000", where an `f32` computation keeps a negative zero, "-0.000".

For the defect model, the library lays the 512-pixel tiles over a frame so
that they cover all of it, up to the right and bottom edges, names the defect
classes, and summarises what the tiles flagged. Running the ONNX model itself
(a floating-point network run through `ort` and `ndarray`) is not part of this
crate.

## Layout

- `src/text.rs`, `src/paths.rs`: text and path helpers, with the calls into
  `std` that the library relies on.
- `src/fits.rs`, `src/files.rs`, `src/session.rs`, `src/progress.rs`,
  `src/config.rs`: the data model.
- `src/grouping.rs`, `src/grouping_laws.rs`, `src/session_order.rs`: forming
  sessions from a scan and listing them in order.
- `src/calibration.rs`, `src/calibration_run.rs`, `src/state_updates.rs`,
  `src/stacking.rs`, `src/headers.rs`: the plan of a calibration run, where
  outputs go, the master cache, and what a run changes in the state.
- `src/grading.rs`: the bookkeeping of a grading run.
- `src/file_batch.rs`: moving and deleting files.
- `src/pixels.rs`, `src/scan.rs`: pixel layouts, Bayer mosaics, and folder
  scans.
- `src/tiles.rs`: the tiles a defect inspection looks at, and its summary.
- `tests/`: tests of the library on concrete values.
- `app/`: the command-line program around the library: FITS input and output
  through cfitsio, star extraction through SEP, the floating-point image work,
  worker threads, and the state and settings files.
