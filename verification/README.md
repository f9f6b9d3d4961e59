# hwpers

A library for the records of HWP (Hangul Word Processor) documents, written
in Verus: each function states what it reads, computes or writes in a
contract, and Verus proves the code against it.

## Layout

- `src/` – the verified library.
  - `parser/` – record headers and tags, the file header, the DocInfo stream.
  - `model/` – the document model: character and paragraph shapes, styles,
    border fills, numbering, binary data, paragraphs and their text, line
    segments, hyperlinks, headers and footers, text boxes, page definitions
    and layouts, document properties and text statistics.
  - `reader/` – a little-endian reader over a byte buffer, and reading a
    document (header, definitions, body sections) from the bytes of an HWP
    compound file.
  - `writer/` – the bytes of records as they are written, sections, header
    and footer paragraphs, text paragraphs, the body text stream, hyperlink
    fields, the definitions stream, and the whole HWP compound file
    (`document.rs`); `HwpWriter` builds a document of paragraphs, lists,
    headers, footers and page layouts and writes it.
  - `crypto/` – the distribution-document key derivation and decryption.
  - `preview/` – preview text, preview images and summary information.
  - `utils/` – byte codecs, UTF-16 text, compression.
  - `render/` – the layout engine: paragraphs broken into lines and runs
    and flowed onto pages, specified by `layout_of`.
  - `hwpx/` – the data types of HWPX XML.
- `tests/` – tests on concrete values.
- `app/` – a command-line tool that prints the structure of an HWP file,
  with what cannot be verified: file I/O, XML parsing of HWPX documents,
  unit conversions in floating point, rendering to pixels and SVG export.

Calls into other crates (compound files, compression, AES, UTF-16 decoding,
the clock) go
through a few trusted functions, each with a doc comment that says what its
contract claims of the crate it calls.

## Laws

Besides the contracts of the functions, `src/` states and proves properties
that span functions, as public proof functions named `law_*`: what is
written reads back as written (records, headers, shapes, page definitions,
text boxes, line segments, document properties, preview text, hyperlinks,
styles), that
deobfuscation undoes itself, that hyperlinks are written in the order they
start, and others.
