# lp_diff

An explorer and diff viewer for linear-programming models in LP format. With
one file it lists the model's variables, constraints and objectives; with two
it shows what changed between them: entries added, removed, modified, renamed,
or only reordered.

## Layout

- `src/` is the library, written in Verus. Its functions state their
  behaviour in `requires` / `ensures` and are proved against it; where a
  function calls into `regex`, `frizbee`, `unicode-width`, `lp_parser_rs` or
  the clock, the contract says what the library does with whatever that call
  gives back, and the call itself is trusted:
  - `merge`: sorting a section's names, the name-sorted walk that pairs the
    entries of two models, and the byte order of names;
  - `source`: parsing a model's text and placing each constraint on its line;
  - `rename`: the `--rename` rewrite rules, and renamed constraints: the
    buckets of candidates, the pairing of removed with added constraints that
    are the same constraint under another name, and the splice that puts each
    renamed entry in name order;
  - `diff_model`, `tabs`, `export`: the classification of each merge step
    into added, removed, modified or unchanged, the change counts, the tab
    labels that show them, and the detail column of the CSV report;
  - `state`, `nav`, `keys`, `popup`, `search`, `session`: the viewer's state,
    navigation, keymap, search and command palette;
  - `line_index`, `theme`, `clipboard`, `format`: line numbers, terminal
    background detection, OSC 52 and duration text;
  - `watch`: when a changed input file is reloaded (`--watch`);
  - `presolve`, `highs_presolve`, `highs_query`, `diagnostics`, `solver`,
    `profile`: the bookkeeping around solver runs (pass statistics, log
    parsing, option files, verdicts).
- `app/` is the program around the library: argument parsing, reading model
  files, the numeric comparison of coefficients under tolerances, the text of
  each entry, and the terminal interface.
- `tests/` exercises the library through its public interface.
