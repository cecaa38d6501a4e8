# simple_beatmap_analyzer

Analysis of osu! standard beatmaps: stream and jump pattern statistics, the column and
options configuration files, the `.osu` metadata reader and the cells of the results table.

- `src/` is the verified library (Verus). `patterns` counts 1/4 and 1/2 patterns, finds the
  timing section of each object and the most common beat length; `columns`, `options` and
  `osu_meta` read and write the text files; `cells` and `digest` render results and MD5
  identifiers; `text` holds the character-level helpers and their specifications.
- `app/` is the program around it: file search, rosu-pp parsing and difficulty calculation,
  the floating-point statistics, and the CSV and binary result files.
