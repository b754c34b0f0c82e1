# ui_test

A test runner for compiler user interfaces. A test is a source file on which the compiler is run.
The exit status, the output and the diagnostics of the compiler are checked: against the mode in
which the tests are run, against files with expected output that stand beside the test, and against
annotations in the comments of the test.

- `src/` holds the decisions, verified with Verus.
  - `worker`: what is done with a path, step by step
  - `schedule`: runs by several workers, with the law that it does not matter who does what when
  - `tally`: which files are tests, and the count of what became of them
  - `target`: on which targets, and in which revisions, a test is run
  - `run`: the command that runs a test, and the verdict on what it did
  - `annotations`: diagnostics against annotations, with their laws in `annotation_laws`
  - `output`: output against expected output
  - `report`: what is shown to the user, in the styles of `style`
  - `config`, `comments`, `diagnostics`, `error`, `path`, `text`: the values that these work on
- `app/` walks through the directories, runs the compiler and reads and writes the files. It takes
  the parsers for the comments of a test and for the diagnostics of the compiler as a parameter.
- `tests/` holds the tests of the library.
