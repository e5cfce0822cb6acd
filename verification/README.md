# luatos_cli

Tooling for LuatOS modules: the serial download protocols of the supported
chips (CCM4211 / Air1601, RDA8910 / Air724UG, EC718 / Air8000, XT804 /
Air6208, BK7258 / Air8101, Air6201, SF32LB58), the firmware containers they
read (PAC, binpkg), the checksums they use, and the decisions of the command
line front end (the FOTA builders' settings and routes, including the Air6208
addresses and secure-boot header strip, flash and flash-test checks and
boot-log line assembly, test-run verdicts, project analysis, log recording).

The library under `src/` is written in Verus: every function carries a
`requires`/`ensures` contract and is proved against it. Protocol laws are
stated as public proof functions, among them:

- `ccm4211::lemma_soc_frame_roundtrip`, `ccm4211::lemma_soc_feed_append`:
  a built SOC frame parses back to its command, address and payload, and the
  parser gives the same frames however the input is split;
- `rda8910::lemma_fdl_frame_roundtrip`, `rda8910::lemma_hdlc_feed_append`:
  the same for FDL/HDLC frames; `rda8910::lemma_fdl_frame_bytewise`: fed one
  byte at a time, a frame gives nothing until its closing flag, which gives
  the packet;
- `ccm4211::lemma_download_covers_image`, `xt804::lemma_xmodem_blocks_cover`,
  `bk7258::lemma_sectors_cover`, `bk7258::lemma_erase_plan_exact`: downloads
  send every byte of an image once, in order, and erase exactly the sectors
  asked for;
- `cmd_project::lemma_config_set_then_get`,
  `cmd_project::lemma_config_set_keeps_others`: a text or flag setting of a
  project reads back as written, and writing one setting leaves the others
  unchanged.

Calls into `md5`, `sha2`, `crc32fast` and a few `std` string functions go
through small trusted wrappers whose contracts name their results.

Layout:

- `src/` – the verified library, one module per chip or command;
- `tests/` – tests of the library;
- `app/` – the `luatos-cli` program: serial port listing, device reboot and
  boot entry, model guides, log viewing and recording.
