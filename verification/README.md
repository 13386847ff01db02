# bookweald

Metadata extraction and normalization for FB2 book collections, verified
with Verus.

- `src/` is the verified library: name normalization (`normalize`,
  `person`, `alias`), book records and their digests (`book`), the reading
  of FB2 descriptions (`fb2_parse`) from the events that `quick_xml`
  yields over a document (`xml`), the blacklist
  file format (`blacklist`), configuration defaults and lookup (`config`),
  and the decisions of indexing, extraction, validation reports and the
  command-line tool (`index`, `extract`, `validate`, `tool`, `db`).
  `text` and `paths` hold the character and path vocabulary, including the
  trusted calls into std.
- `app/` is the `bookweald` command-line program: file and database I/O,
  threads, the serde copies of the configuration types, and libxml2
  validation.
- `tests/` exercises the library on concrete inputs.
