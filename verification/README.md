# mediatool

A small desktop media tool (media information, quick stream-copy cropping,
thumbnail contact sheets) built around the bundled ffmpeg / ffprobe.

- `src/` is the verified library: the checks on crop and thumbnail requests,
  the output names (`name.ext`, `name (1).ext`, ... never overwriting), the
  plan of ffmpeg runs of a crop (one cut, or cuts into pieces and a join) with
  their arguments and concat list, `h:mm:ss` durations, the thumbnail grid
  layout, the extract of
  ffmpeg's error output, and the arrangement of a probe into report sections
  (codec, channel and container names).
- `app/` is the Tauri program around it: commands, dialogs, running ffmpeg and
  ffprobe, reading their JSON, the scratch folder, and the floating-point
  parts of sizes, durations, bit rates and frame rates.
- `tests/` exercise the library on concrete values.

Crop times are held as an order-preserving integer rank, whether the time is
finite, and the text handed to ffmpeg, so requests compare exactly as given.
Path pieces (extension, stem, folder) come from `std::path::Path`; the library
states them exactly for paths that every platform reads the same way.
