# acadrust-dxf-bench

A benchmark harness that compares DXF/DWG libraries (dxf-rs, acadrust,
ACadSharp, ezdxf) on generated and user-provided drawings.

The part of the harness that computes and decides without I/O is a library
verified with Verus (`src/`):

- `generators` – scale presets, the layout of each generated drawing (entity
  kinds, layers, text values, polyline counts) and the list of drawing
  variants;
- `custom` – input formats of user-provided files, staging names, and where an
  input's results stand among a runner's results;
- `runners` – the order in which the external runners are tried (packaged
  runners, configured and bundled Python interpreters, then commands on the
  search path), when the search stops, framing of the runners' output (the
  JSON line, the last line of standard error) and their failure messages;
- `report` – the Markdown report around formatted timings;
- `gui` – where a preset run leaves its report, and which iteration counts the
  front end accepts;
- `text` – decimal rendering, trimming and unsigned parsing, joining, and file
  stem sanitizing.

The program around it (`app/`) draws random coordinates, builds the drawings
(and their binary copies, by a round trip through the `dxf` parser, which
panics on some malformed input), reads and writes files, times the
libraries, looks up the environment and the candidate runner paths, starts
the runners in the order the library gives, and shows the desktop front end
with its threads. Timings are floating-point milliseconds and stay there.
