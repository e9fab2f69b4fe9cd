# bcachefs

The logic of the bcachefs filesystem's Rust interface, with contracts that Verus proves.

- `src/btree`: positions, keys and their order; parsing positions; transactions and loops over keys
- `src/accounting.rs`: disk accounting keys, encoded in positions
- `src/sb`: superblocks, their flags, and the list of member devices
- `src/fs.rs`, `src/buckets.rs`, `src/dirent.rs`, `src/inode.rs`, `src/errcode.rs`: the filesystem as
  plain values, reservations, names, inodes, and errors
- `src/util`: bit fields, bytes, text buffers, arrays, and waiting for tasks
- `src/codegen`: reading x-macros out of C headers, generating Rust from them, the `bindgen` command
  line, and fixes to its output
- `app`: the generator program, and what carries the library's decisions out on a running filesystem

Functions whose names start with `law_` state what holds across several functions.

The layout of positions in memory is that of a little-endian machine.
