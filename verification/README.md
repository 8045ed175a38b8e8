# profiling

Profiling of named time intervals on a browser's performance timeline, with the
decisions and encodings verified by Verus.

- `src/performance_logger.rs`: log levels, the `LEVEL//name//kind` names of marks
  and measurements and their decoding, the start and end protocols of an
  interval, interval handles, and reports.
- `src/profiling.rs`: the same protocols for intervals that carry metadata
  (source location, profiling level, label).
- `src/welcome_screen.rs`: the projects list entries and the event network of
  the welcome screen.
- `src/order.rs`: the stable order in which reports list measurements.
- `src/text.rs`: decimal numbers and delimiter search.
- `src/outside.rs`: the calls into `itertools`, `inflector` and `serde_plain`,
  the outside types the library carries, and the `Clone` of `Result` and
  `JsValue` that derived impls call.
- `app/`: the build features that switch log levels on, the Web Performance
  API and DOM calls, serde forms of the types,
  console warnings and floating-point formatting.
