# uuid

Parsing of UUIDs from text, verified with Verus.

A UUID is read from any of its four textual forms (simple, hyphenated,
braced, URN), told apart by length. A rejected text can be diagnosed in
detail: the first stray character, a wrong length, a wrong number of groups,
or the first group of wrong length. The four forms can also be written.

- `src/parser.rs`: the forms and their parsers; `Uuid::parse_str`,
  `Uuid::try_parse`, `Uuid::try_parse_ascii`.
- `src/error.rs`: `Error`, `ErrorKind`, and the diagnosis of a rejected text.
- `src/fmt.rs`: writing the four forms.
- `src/roundtrip.rs`: what reading and writing undo of each other, and how
  the forms relate.
- `src/uuid.rs`, `src/hex.rs`, `src/ascii.rs`, `src/text.rs`: the value, its
  digits, the bytes of its text, and bytes as UTF-8 text.
