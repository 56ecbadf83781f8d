# morelike

Finds duplicate-file candidates: it walks a directory tree, groups the files by a
CRC32C checksum of their first 1024 bytes, and lists the groups that hold more
than one file. It also checksums whole files with XXH64, scans with worker threads
that report their progress to a coordinator, and runs work on a small thread pool.

- `src/` is the library, verified with Verus: the walk decisions (`walk`, `scan`),
  the duplicate table (`table`), the checksums (`hashing`), the progress protocol
  of the threaded scan (`task`), the text layout of reports (`text`) and the
  local date of a file time (`date`). It also
  holds the thread pool (`taskpool`, `pool`, `workpool`): there the messages, the
  configuration and the decisions have exact contracts, while what goes through
  channels and atomic counters (delivery, the counts themselves) depends on other
  threads and is not stated.
- `app/` is the program around it: reading directories and files, the progress
  bar, starting threads and printing.
- `tests/` runs the library on concrete values.
