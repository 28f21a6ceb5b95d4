# desktoporz

Saves the positions of the Windows desktop icons into named profiles and puts them
back with one command (`save`, `save-res`, `profile-update`, `restore`, `list`,
`lang`, `startup`, `wait-drive`).

- `src/` is the library, verified with Verus: the command line, the profile
  merging and the layout chosen per resolution, the restore passes (a step machine
  that the program drives), the translations (flattened JSON, `{name}` placeholders),
  the registry texts (UTF-16 encoding and lossy decoding), the process and desktop
  waits, and the listing of saved profiles.
- `app/` is the Windows program around it: the list view of the desktop, the
  registry, the files beside the executable, and JSON through serde.
- `tests/` runs the library on concrete values.

The program embeds one JSON language document per built-in language
(`pt-br`, `en-us`, `ru`, `zh`, `es`) from `langs/<code>.json` beside
`Cargo.toml`. Those documents are not part of this tree and must be added
there before the program is built; the library only looks them up, ignoring
ASCII case, and reads them.
