# defense

A behaviour-based endpoint security agent, written as a library that Verus
verifies and a thin program around it.

- `src/` is the verified library: security events, detection rules and
  their evaluation, alert records, log lines and log file rotation, the
  pure decisions of the collectors (which processes, disks, interfaces and
  registry values to report, how `/proc/net/tcp` is read), the daemon's
  counters and status boxes, and the lines of the scanner's terminal report.
  Every public function states its result in its contract; the laws that
  relate several functions are public proof functions named `law_*`.
- Calls into other crates (regex, owo-colors, chrono) and into parts of
  std that Verus has no specification for stand behind small trusted
  wrappers, each documented with what it claims of the called function.
- `app/` is the `defense-agent` program: argument parsing, the collectors'
  polling loops, reading rule files, the event channel and writing alerts.
  Floating-point comparisons of the numeric rule operators are made there.
- `tests/` runs the library on concrete values.
