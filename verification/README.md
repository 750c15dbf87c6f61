# pfs3

Tools for Amiga PFS3 disk images — a command-line tool (`pfs3`), a FUSE
driver (`pfs3-fuse`) and a fixture generator — whose decision logic is a
library verified with Verus.

## Layout

- `src/` — the verified library:
  - `bytes.rs` — big-endian longwords and Amiga block checksums
  - `rdb.rs` — the Rigid Disk Block (RDSK and PART blocks) of test images
  - `memdev.rs` — in-memory block devices
  - `text.rs` — decimal numbers and ASCII case-insensitive names
  - `fuzz_ops.rs` — decoding of the writer fuzzer's operations
  - `namecache.rs` — the FUSE driver's (directory, name) → inode cache
  - `fuse.rs` — the FUSE driver's state and the decisions of every handler
  - `check.rs` — the consistency checker's bookkeeping and findings
  - `cli.rs` — the command-line tools' decisions: partitions, indices,
    volume names, paths, deleted files
- `tests/` — tests of the library on concrete values.
- `app/` — the programs: argument parsing, image I/O through `libpfs3`,
  FUSE plumbing and output. They ask the library what to do.
