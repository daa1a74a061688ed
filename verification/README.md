# nosharp

The front end of No#, a small C#-inspired scripting language, written in Verus. It lexes a
source text, parses it, lowers the program to the commands that the host runs, and checks it
against the functions that the host provides; each step is proved against a mathematical
statement of what it computes.

## Layout

- `src/lexer.rs`: the lexer (longest match, keywords before names, byte spans of errors).
- `src/syntax.rs`: tokens and the syntax tree, with their views.
- `src/parser.rs`: the grammar as ordered choice with backtracking, the syntax error position
  (the furthest failure) and its diagnostic.
- `src/commands.rs`: lowering statements to host commands.
- `src/eval.rs`: the static checker (types, scopes, calls, returns).
- `src/report.rs`: drawing error reports with ariadne.
- `src/laws.rs`: properties that hold of all inputs.
- `src/lib.rs`: `analyze`, the whole front end, and its answer.
- `app/`: the command-line program, the C interface for the host, and the JSON shapes.
