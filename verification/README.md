# v9p

A verified file-descriptor layer over an in-memory file system, answering
WASI-style file requests (open, read, write, seek, stat, link, rename, ...)
with error numbers.

- `src/` is the library; every function in it carries a contract that is proved:
  - `types.rs`: error numbers, file types, seek and lookup modes, status records;
  - `flags.rs`: flag sets (descriptor flags, rights, time flags, open flags);
  - `filesystem.rs`: the in-memory file system, with its abstract view
    (a sequence of inodes whose directories map names to inode IDs);
  - `paths.rs`: where a path to a new or removed entry leads (a directory
    and a name), and which changes of the file system keep a walk's result;
  - `v9p.rs`: the device, whose abstract state `P9State` is the file
    system's view, the open descriptors and the next descriptor ID; every
    request is specified by a function on `P9State`;
  - `laws.rs`: properties that relate several requests;
  - `clock.rs`: the wall clock, through `std::time`.
- `tests/` exercises the library on concrete values.
- `app/` is the C-facing edge: `bitflags` flag types, I/O vectors and
  directory entries holding raw pointers, and the copies through them.
