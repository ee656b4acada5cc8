# qdctl

Backs up Qdrant collections to Avro files with a `metadata.json` beside them, and restores them.

- `src/` is the library: what is stored of points and collections, what is restored from it, and
  the order in which pages, batches and directories are worked through. It is written in Verus;
  `laws.rs` states what a restore gives back of a backup.
- `app/` is the program: the command line, the connection to Qdrant, the files.
- `tests/` runs the library.

A stored point is one Avro record with the fields `id_type`, `id_num`, `id_uuid`, `payload` and
`vectors`. The payload and the vectors are JSON text. JSON has no place for a number that is not
finite: in a payload it comes back as null, in a vector as zero.
