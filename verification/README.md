# oxc_formatter_json

A verified library for two jobs around the oxc JavaScript tooling:

* printing JSON documents: parsing a document with the oxc parser, hoisting its comments
  with their vertical spacing, honouring `prettier-ignore` / `oxfmt-ignore` markers, and
  describing the output as a list of format elements;
* rewriting lint rule documentation: adding a `### References` section that links each
  rule to its upstream ESLint plugin, either among the rule's inline doc comments or in a
  shared documentation constant.

Layout:

* `src/span.rs`, `src/options.rs`, `src/value.rs`: spans, comments, options, value shapes.
* `src/context.rs`: the comment cursor and its laws (each comment is handed out once).
* `src/comments.rs`, `src/print.rs`: comment placement and value printing.
* `src/oxc_parse.rs`, `src/parse.rs`: the parser calls and the parsing decisions.
* `src/text.rs`: character-level search and trimming.
* `src/attribution.rs`, `src/idempotence.rs`: the documentation rewrites and the proof
  that running them twice changes nothing more.
* `app/`: the command that walks the rules directory and writes the files, and the glue
  that hands format elements to `oxc_formatter_core`.
