# ascii_ansi_table

A library that draws text tables for terminals, with borders, alignment, padding,
wrapping and truncation, ANSI colour sequences, emoji and wide characters, spanning
cells, headers, single-line and HTML output, streaming output and table validation.

The library is written in Verus: each public function states in its `ensures` what it
returns, over spec functions and views, and Verus proves the code against it.

Layout:

- `src/` – the verified library. `pipeline/` holds the main table pipeline (settings,
  widths, processing, drawing); the other modules hold the features around it.
  Calls into `unicode-width`, `unicode-segmentation`, `textwrap` and `ansi-to-html`
  go through small trusted wrappers whose contracts are stated in their doc comments.
- `tests/` – tests of the library, run against the compiled crate.
- `app/` – the `table` command: argument handling, reading and writing files, the JSON
  reading of settings, the sleep-and-print loop of the demos (whose rows, settings and
  output steps come from the library's `demo` module), and what needs the clock or
  floating-point numbers (timing, averages) or an `io::Write` target.
