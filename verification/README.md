# scissors

Editor-based content approval, git-commit style. The content is opened in the
user's editor followed by a scissors footer; what is approved is everything
above the last scissors line.

- `src/` is the verified library: the text model (whitespace, trimming, lines),
  the scissors cut, the editor buffer, editor resolution and the meaning of an
  editor round-trip, with the round-trip law between buffer and cut in
  `src/laws.rs`.
- `app/` is the command-line program: arguments, environment, temporary files,
  the editor process and the final rename.
- `tests/` exercises the library on concrete values.
