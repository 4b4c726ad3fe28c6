# spb2xml24

Decompiles Microsoft Flight Simulator 2024 compiled property files (`.spb`)
back into XML. The library in `src/` is written in Verus: its functions
carry `requires`/`ensures` contracts over mathematical models, and Verus
proves each body against its contract. The exceptions are four small
`#[verifier::external_body]` wrappers around std (`string_from_chars`,
`utf8_lossy`, `char_is_alphanumeric`, `io_error_text`): their contracts state
what std documents of the call and are trusted, not proved.

## Layout

- `src/reader.rs` – little endian reads over a byte stream.
- `src/spb.rs` – the SPB stream parser. `decoded_document` specifies the
  document a byte stream decodes to (header, tag table, element tree, value
  layouts, float input pins), and `parse` is proved to produce it.
- `src/propdefs.rs` – the GUID keyed definition bank and the scanner for the
  property definition files.
- `src/scan.rs` – the tolerant tag, attribute and comment scanner.
- `src/textdecode.rs` – the position dependent text cipher.
- `src/xml.rs` – the XML model and serialiser (UTF-8 and Windows-1252).
- `src/guid.rs` – GUID text in the .NET byte layout.
- `src/locate.rs` – reading `UserCfg.opt` and `libraryfolders.vdf`, and the
  candidate install locations.
- `src/cli.rs` – command line options.
- `src/text.rs`, `src/error.rs` – shared helpers and the error type.
- `app/main.rs` – the program: file and directory handling, install
  discovery, and the floating point formatting of decoded values, which the
  library carries as raw bit patterns.

Decoding `TEXT` values needs the cipher table (`textdecode.bin`, 256 records
of a little endian `u16` length followed by that many cipher bytes); the
program reads it from `SPB2XML_TEXTDECODE` or from beside the executable.
