# fletch

A small statically typed scripting language, written as a Verus library.

- `src/` is the verified library: the lexers, string escapes, the parser
  (proved equal to a grammar given as spec functions), name resolution, the
  type lattice, inference and the type checker, lowering of `main` to a
  typed intermediate form, diagnostics, the front end
  that ties them together, and the register machine: its instruction
  encoding, values (integers of any size through `num-bigint`), chunks of
  code with labels and constants, and the machine, run one step at a time.
- `tests/` runs the library on concrete programs.
- `app/` is the `fletch` command: it reads a file, prints the S-expression
  of the program where asked, renders diagnostics with `codespan-reporting`,
  and says when the program cannot be run. The command stops there: no
  program is compiled or run. `app/` also holds a loop that would run a
  module on the machine, doing the float arithmetic the machine hands out;
  the command does not call it.

A `VecReporter` owns the diagnostics it has been given. Cloning one copies
them; the clone and the original do not share what is reported afterwards.
The front end hands a single reporter from stage to stage instead.
