# audiohit

Trims and fades single-hit audio samples (drum hits, bass notes): the start
and end of the main content are found by amplitude threshold, the file is cut
to them, faded in and out, optionally resampled, and written next to the input
in an `output` folder. Files of a folder can also be concatenated into
Octatrack sample chains.

- `src/` is the verified library (Verus): region detection (`regions`), buffer
  transforms (`resample`, `trim`), output names and SoX argument lists
  (`naming`, `sox`), folder entry selection and output folders (`folder`),
  sample-chain batching and random picking (`chain`), per-file plans and scale
  pitches (`plan`), presets (`preset`) and format checks (`audio`).
- `app/` is the command-line program: argument parsing, WAV reading and
  writing, SoX calls, directory listing, chain files, and the floating-point
  steps (dB conversion, fade gains, normalisation).
- `tests/` holds the tests of the library.
