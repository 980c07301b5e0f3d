# toml_etna

Verified decision logic of a property-testing workload for a TOML document
parser, and the runner that drives it under several testing tools.

- `src/property.rs`: the three-way `PropertyResult`, the bounded input domain
  (`input_in_domain`), and the verdicts of the two properties (no panic,
  termination) from how a guarded parse ended.
- `src/runner.rs`: metrics and their folding over a run of every property,
  property and tool names, witness inputs, the statuses that each testing
  framework's run is reported as.
- `src/generate.rs`: the mapping from generated bytes to TOML-flavoured input.
- `src/json.rs`, `src/report.rs`: JSON string escaping and the one-line report.
- `src/text.rs`: character-level string helpers and decimal notation.
- `app/main.rs`: the runner program: argument handling, the guarded parse
  (panic catching, worker thread with timeout), the framework drivers, output.
