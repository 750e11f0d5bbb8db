# hlwnpa

An interpreter for a small scripting language with functions, structs,
arrays, `if`, `while` and `for`, `const` and `let`, and `include`.

The library under `src/` is verified with Verus. Its parts:

- `ast`, `operator`: the syntax tree, values, types and errors.
- `model`: the mathematical model of each of those types.
- `parser`: the grammar, written as spec functions over characters, and
  the parser that is proved to follow it; `expressions` groups operators by
  precedence; `preprocessor` replaces escape sequences; `for_loop` writes a
  `for` loop as a `while` loop over hidden variables.
- `semantics`: what evaluating an expression means; `interpreter` runs a
  program and is proved to do exactly that.
- `typecheck`, `mutability`: the static checks, as spec functions and
  verified checkers.
- `repl`: the state kept between lines at the prompt, and the standard
  functions `print` and `println`.
- `includes`: the files a program includes, to be read before it runs.
- `laws`, `ordering`, `budget`, `eval_laws`, `parse_budget`: properties that
  relate several functions, among them that the budgets of evaluation and of
  parsing only cut off what would run longer.

`app/main.rs` is the command line: it reads files and standard input, prints
what programs print, and hands everything else to the library.
