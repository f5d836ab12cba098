# strauss

Prefixes the namespaces, classes, functions and constants of the Composer
dependencies of a PHP project, so that two plugins can ship different versions
of the same library side by side.

Layout:

- `src/` — the library, verified with Verus: the configuration model
  (`config`), the symbol and file collections (`types`), the PHP syntax-tree
  walks that find declarations and references (`parser`), the text rewriting
  (`replacer`) and the decisions of each pipeline step (`pipeline`).
  Calls into tree-sitter, regex, fancy-regex, aho-corasick and dashmap go
  through small trusted wrappers whose contracts say what the libraries
  document.
- `tests/` — unit and scenario tests of the library.
- `app/` — the command-line program: argument parsing, reading `composer.json`
  and `composer.lock`, walking and copying files, and running the pipeline
  steps in order.
