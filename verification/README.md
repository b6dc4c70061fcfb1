# rpgdata_crypt

Decrypts and encrypts the wrapped `data/*.json` files (`{"uid","bid","data"}`)
of RPG Maker MZ games and of MV games whose loader was modified to read the
same wrapper, and restores a game so that it runs on plain JSON.

- `src/` is the library, verified with Verus:
  - `crypto` — the engine's key schedule and reverse XOR stream with plaintext
    feedback, with the round-trip laws; the filename hash runs over UTF-16
    code units, as `charCodeAt` reads them;
  - `param_parser`, `mz`, `mv` — reading `_K` and the loop constants out of the
    manager script, and the loader patch of each engine family (with its
    idempotence law);
  - `commands` — the `data` field: base64, decryption, UTF-8, byte order mark,
    pretty printing, and the text of the wrapper written on encryption;
    encryption is proved to be undone by decryption;
  - `detect`, `paths` — recognising a game root from what the file system shows,
    and the roots searched above a path;
  - `listing` — which files of a directory are converted, and in what order;
  - `restore` — the restore / revert / patch-js workflows as plans of file
    actions, with the law that revert undoes restore;
  - `text` — character-level search and replacement.
- `app/` is the command-line program: argument parsing, file-system access and
  the JSON wrapper.
- `tests/` runs the library on concrete values.
