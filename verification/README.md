# soop

An interpreter for the Soop language: symbols (`:a`), pairs (`a, b`),
functions by pattern matching (`pat -> body`), application by juxtaposition
and `name = value; body` bindings. Evaluation is lazy; a program prints the
value it evaluates to.

The library in `src/` is verified with Verus:

- `exp`, `model`: the data types and their mathematical views.
- `env`: environments as lists of bindings, with lookup laws.
- `semantics`: the evaluator as fuel-indexed spec functions, with
  monotonicity and uniqueness of results.
- `eval`: the executable evaluator and read-back, proved equal to the
  semantics.
- `grammar`, `parse`: the grammar as spec functions and a parser proved to
  follow it; `nom` supplies the text of parse errors.
- `print`, `debug`: the printer and the debug text of error values, with
  environments written as maps.
- `reparse`, `roundtrip`, `symbols`: parsing the printed form of a plain
  expression gives it back; what a program prints, where its value is made
  of pairs and symbols, is a fixed point of the interpreter.
- `run`: the whole pipeline from program text to output text.

`app/` holds the command line program (argument parsing with `clap`, file
reading, printing).
