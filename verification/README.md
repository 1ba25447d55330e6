# rust_lessons

A verified library of small building blocks and of the logic of a thumbnail
service, with the programs that use them in `app/`.

- `src/` (verified with Verus):
  - `text` — `strtok` and string slicing;
  - `node` — nodes sharing their downstream neighbour through `Rc`;
  - `writer` — byte sinks, `BufBuilder` and `MyWriter`;
  - `developer` — developers and their description;
  - `numbers`, `str_parser` — reading integers as `from_str` does, and the
    `Parse` trait that reads the first number out of free text;
  - `guess` — the decisions of the guessing game;
  - `pb`, `engine`, `url`, `cache` — the thumbnail service: image
    specifications and their text form, planning of image operations and
    JPEG output, percent-encoding of image URLs, and the LRU image cache.
- `app/` (plain Rust): `main` with the programs `guess`, `sizes`, `traits`
  and `thumbor`; the protobuf messages, the photon image engine and the
  web server live there.
- `tests/`: tests of the library.

The thumbnail service stamps a watermark read at run time from
`rust-logo.png` in the working directory.
