# regenerator2000

The document model of an interactive 6502 disassembler for Commodore
machines, verified with Verus.

- `src/` is the verified library: block types and their run-length form,
  labels, the undo stack, project save and load (with the raw image stored
  as base64 of gzip data), the menu and its actions, and the views that
  follow the cursor. Each public function carries a contract; the laws that
  relate several functions are public proof functions named `law_*`.
- `app/` holds what runs around the library: reading and writing files,
  the settings directory, JSON layouts of the project and settings files,
  and drawing the menu in the terminal.
- `tests/` exercises the library on concrete values.
