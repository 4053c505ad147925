# typing_test

A terminal typing test. The library under `src/` holds its rules, verified
with Verus; `app/` is the program around it (terminal, files, clock, random
words, and the floating-point speed and accuracy formulas).

- `config`: settings (among them the word list difficulty: Easy, Medium,
  Hard, each with its own built-in word list), language packs, the choice
  of the selected language when a configuration is loaded, and the key a
  result is saved under (`words_20_Easy`, `time_60_Hard`).
- `results`: saved results grouped by key, keys kept in ascending order.
- `menu`: the settings menu as a state machine over key presses.
- `stats`: the stats view as a state machine, and the rows of its listing.
- `session`: one typing test: words drawn at random, key handling, the end
  of the test, and the counts of correct characters and errors.
- `layout`: where words, characters and the cursor go on the screen.
- `text`: decimal numerals, padding, lexicographic order, string helpers.
- `cli`: the command the program's arguments ask for, and the usage text.

The words of a test come from the word list of the difficulty set in the
menu. Language packs (`languages/*.json` under the working directory, each
`{"name": ..., "words": [...]}`) are still read into the configuration.
