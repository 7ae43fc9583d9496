# bincode_de

The decoding half of the bincode wire format, written in Verus and proved
against its contracts.

- `src/config.rs`: decoding options, the byte order of integers and the size
  limit, with the limit's accounting.
- `src/error.rs`: the error kinds.
- `src/bytes.rs`: what a run of bytes means as an integer in either byte order,
  the laws that tie the two orders together, and the calls into `byteorder`.
- `src/utf8.rs`: the width of a UTF-8 encoded character from its first byte,
  and the UTF-8 checks of the standard library.
- `src/de/read.rs`: byte sources and what taking bytes from a source means:
  `SliceReader` over memory; `IoReader`, which reads through a reused buffer
  from any `ReadExact` reader and hands out exactly the bytes that reader
  yields; `StreamReader`, which turns a raw `ReadBytes` stream into such a
  reader by recording what the stream hands out and its last error.
- `src/de.rs`: the deserializer, which turns bytes into integers, booleans,
  characters, strings, byte strings, option tags, variant indices and lengths.
- `src/de/laws.rs`: properties that span operations, such as the limit being
  charged exactly what is read and the input being taken in order.
- `app/`: the `serde::Deserializer` implementation on top of the library,
  serde-compatible errors, and `StdRead`, which makes any `std::io::Read` a
  `ReadBytes` stream.

Integers are read at fixed width.
