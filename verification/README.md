# chuda_lexer

A lexer for the chuda programming language, verified with Verus, together with the
file-name rules and the command line of its compiler driver.

- `src/scan_model.rs`: the meaning of scanning, as spec functions over `ScanState`.
- `src/token_scanner.rs`: `TokenScanner`, whose every step is proved to follow the model.
- `src/tokenizer.rs`, `src/lib.rs`: lexing whole texts (`Tokenizer::lex_file`, `lex_files`).
- `src/token.rs`, `src/token_type.rs`, `src/lexer_error.rs`: tokens and how they are written out.
- `src/laws.rs`: properties that span calls (positions of tokens, the end of input,
  the shape of a lexed text, maximal munch, line ends).
- `src/chuda_files.rs`, `src/eta_files.rs`, `src/source_files.rs`: source and output file names.
- `src/cli.rs`: the driver's command line; `src/grammar.rs`: the grammar's symbols.
- `app/main.rs`: the `chudac` driver (arguments, files, printing).
