# linear_regression

A small trainer that fits a line `price = a * km + b` to a CSV file of car
prices by gradient descent, with a price predictor and an interactive shell.

- `src/` is the verified library (Verus):
  - `binary64`: the order of binary64 values read from their bit patterns
    (`>`, `==`, NaN, and the NaN-skipping max/min folds that give a column's bounds);
  - `command`: the shell's input line, Unicode white space, trimming, and the
    command named by the first word of a line;
  - `training`: the error log of the descent (what each iteration records,
    when a run stops) and the law that recorded errors never rise within a run;
  - `progress`: spinner or counting bar.
- `app/` holds the programs: files, CSV, bincode, terminal, plots, and the
  binary64 arithmetic of the model, which Verus cannot check.
- `tests/` runs the library, comparing the bit-level order with the
  hardware's and the white-space set with the standard one.
