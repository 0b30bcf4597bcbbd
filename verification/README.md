# ccometixline

A status line for AI coding sessions: it reads the session's request on
standard input, collects what each configured segment shows (API time,
lines changed, cache hit rate, turns, tool calls, stop reason, tool
success rate, ...) and prints one line with colours, separators or
Powerline arrows.  A configuration screen shows the segments grouped and a
preview of the line wrapped to the terminal.

Layout:

- `src/` is the verified library.  Its contracts state the rendered status
  line, the wrapped preview, the segment data, the transcript totals, the
  segment grouping and the configuration checks exactly, over spec
  functions; laws such as "normalising the segment order is a stable sort"
  or "an incremental transcript read gives the totals of a full read" are
  proof functions beside the code.
- `app/` is the program around it: argument parsing, configuration and
  theme files, the transcript file and its cache, the terminal screen, and
  the printing of rates (floating point).
- `tests/` runs the library on concrete values.
