# wind_knowledge

Rules of a wind-turbine operations-and-maintenance assistant, verified with
Verus: query normalisation, fault-graph lookup, inspection advice, risk
assessment, fault analysis, skill dispatch and output, report text, document
classification and text extraction, SCADA/CMMS/weather record selection,
data-quality findings, turbine history, desktop settings and secrets, the
runtime event inspector and the environment doctor.

- `src/` — the verified library. Each public function states its result in
  its `ensures`, over spec functions on plain values; laws that relate
  several functions are public proof functions (`lemma_*`).
- `tests/` — tests of the library on concrete values.
- `app/` — the command line and everything around the library that reads
  or writes files, the environment or the clock, converts JSON with
  `serde_json`, reads CSV and TOML, and computes the floating-point
  confidence estimates.

Collections keyed by text are held as vectors with an invariant: the rule
tables (`config::WindRulesConfig`) are vectors of `RuleEntry` with distinct
keys (`wf`), and sorted sets of strings are strictly sorted vectors
(`text::insert_sorted_unique`). vstd specifies `HashMap` and `BTreeMap`
usefully only for keys it can compare, such as integers; with `String` keys
no fact about their contents can be proved, so the contracts are stated
over the vectors' views instead.
