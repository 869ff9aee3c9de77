# ntoskrnl_offsets

Finds the offsets of Windows kernel structure members in the type dump that
radare2 prints for `ntoskrnl.exe` and its PDB.

- `src/` is the verified library. `text` holds the character-level string
  work (lines, trimming, searching, decimal parsing); `symbols` the list of
  expected kernel symbols; `matching` the regular-expression searches, made
  by the `regex` crate; `version` the radare2 version check; `report` the
  specification of which lines declare a symbol and what is reported of
  them; `dumper` the `Dumper` whose methods take what radare2 printed and
  decide.
- `app/` is the command-line program: it runs radare2, checks the file
  system, hands the outputs to the library and prints the results as text or
  JSON.
- `tests/` runs the library on sample outputs.
