# flex_metro_core

The core of a programmable metronome, verified with Verus.

A composition is a hierarchy of movements, sections and bars; sections host
repetitions that replay a range of sections, optionally followed by an
individual ending. The library expands a movement into the sequence of bars
as they are played, looks bars up by their number in the performance, reads
and validates compositions in their YAML form, reads beat and tick
configurations, divides bars into beats (major, medium, minor), and holds the
decisions of the timer, the event publisher and the front-end interface.

Layout:

- `src/` – the verified library. `composition` (the data model),
  `performance` (the expanded bar sequence), `bar_reference` (lookup by bar
  number), `yaml_form` and `reader` (YAML form, conversion, validation),
  `beats`, `ticks`, `yaml_doc`, `strings`, `text` (configuration tables and
  the text they are read from), `meter` (beats of bars), `tempo`,
  `tempo_sequence` (repetition marks of tempo intervals), `ticker`,
  `measure`, `publisher`, `flutter`, `section` (timer and interface state).
- `tests/` – tests of the library.
- `app/` – file and YAML I/O through serde, floating-point timing, timer
  threads, the publisher's command thread and the global state of the
  front-end interface.
