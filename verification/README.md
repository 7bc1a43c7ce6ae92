# liminescreen

A startup addon for Limine that asks the firmware to start its displays, and
`liminescreenctl`, which installs the addon beside the official Limine and
manages its firmware boot entry.

- `src/` is the verified library: the bounded boot report, the display
  decisions of the startup app, the parsing of `efibootmgr` listings and the
  boot order edits, PE image validation, the command line, and the install
  and management procedures as step machines whose every request is stated.
- `app/` carries out what the library asks for: commands, files, the boot
  partition lock, JSON of the installation record, and the UEFI calls of the
  startup app.
- `tests/` runs the library on concrete inputs.
