# regex_sweep

Regex Sweep scans the text files of a folder with one or more regular
expressions and reports every match, as JSON records or as a standalone,
filterable HTML page.

`src/` is the library, verified with Verus:

- `text` — trimming, ASCII case folding, line splitting, decimal numbers and
  the code-point order of strings;
- `paths` — the parts of a path the sweep reads, binary-file detection, the
  report's output location;
- `patterns` — compiling the user's regular expressions and running them;
- `globs` — the optional include or `!`-exclude file glob;
- `records` — match records and how they are gathered from a file's text;
- `summary` — affected files, file-type counts and the export summary;
- `report` and `template` — HTML and script escaping and the report page;
- `sweep` — the decisions of a sweep, one event at a time;
- `laws` — properties proved of the library as a whole.

`app/` is the desktop shell: the Tauri commands, the folder walk, file reads
and writes, the clock and JSON serialisation.

The sorted sets and maps of file paths and file types are kept as strictly
sorted `Vec<String>`s rather than `BTreeSet`/`BTreeMap`: vstd's B-tree
specifications hold only for key types that obey its `Ord` model
(`obeys_cmp`), and vstd gives `String` no such model, so with `String` keys
they state nothing of the contents. The library keeps the order itself
(lexicographic by code point, as `String` orders) and proves that each text
occurs once.
