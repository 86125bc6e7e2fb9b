# exceltocsv

Converts Excel worksheets (XLS, XLSX) to CSV.

- `src/` is the verified library: reading one-ASCII-character option values
  (`ascii`), cell rendering and integer decimal text (`cell`), the CSV
  dialect chosen by the options (`dialect`), workbook format recognition from
  the first bytes (`format`), rectangular worksheet areas (`sheet`), the CSV
  text of a worksheet through the `csv` crate (`csv_text`), the plan of a run
  (listing names, which sheets go to which files, the default sheet) and its
  failures (`plan`), and character-level text helpers (`text`).
- `app/` is the command-line program: argument parsing, opening workbooks
  with `calamine`, and writing to files and standard output.
- `tests/` builds workbooks with `rust_xlsxwriter` and drives runs end to end.
