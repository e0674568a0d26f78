# hddllfrt

A cross-platform storage-device low-level format utility: zero-fill, quick
format, multi-pass secure erase, read-back verification and S.M.A.R.T.
display. The library in `src/` holds the utility's rules with Verus
contracts; `app/` is the interactive program that reads the system and drives
the devices.

## Layout

- `src/device/` — storage devices and human-readable capacities
  (`format_bytes`), the NVMe health log page (`nvme`), and the plans of the
  device operations (`operations`): which bytes each pass writes, in which
  chunks and with which pattern, and how verification proceeds.
- `src/platform/` — what Linux sysfs, macOS `diskutil` and the Windows
  storage IOCTLs report, turned into devices, mount verdicts and privilege
  verdicts.
- `src/ui/` — menu choices, the prerequisites of destructive operations, the
  two-step confirmation, and the text lines shown to the user.
- `src/text.rs`, `src/bytes.rs` — decimal/hexadecimal rendering, trimming,
  number parsing, little-endian decoding.
- `app/` — `main`, prompts, progress bars, file and device I/O, system calls.
