# tp7

A command-line tool for the Teenage Engineering TP-7 recorder: it finds the recorder
over USB, switches it into MTP mode over MIDI when needed, and lists, reads, writes,
renames and removes files on its storage.

- `src/` is the verified library, with a contract on every function: device selection
  and mode detection, the MIDI SysEx messages, remote path normalisation and
  resolution, the plans of `pull`, `push`, `mkdir`, `rm` and `rename` (including the
  order of a staged replacement and the clean-up after a failed download), the WebDAV
  request handling behind the Finder mount and the search for a free mount point, the
  parsing of `ps` and `ioreg` output, and the text every command prints. Laws that span
  functions are public proof functions (for example `mount::lemma_href_roundtrip`,
  `midi::lemma_unpack_pack_7bit`, `remote::lemma_normalize_idempotent`).
- `tests/` exercises the library on concrete values.
- `app/` is the program around it: the command line, USB, MTP and CoreMIDI access,
  files, external commands, JSON output, the WebDAV server loop, and the loops that
  wait and retry against the clock; each of its loops asks the library what to do next.
