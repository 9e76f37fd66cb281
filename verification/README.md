# docx2tex

Converts Word documents (`.docx`) into LaTeX source, with three template
presets (`default`, `ieee`, `thesis`), optional PDF compilation, and a
`validate` command that prints the structure of a document.

The library in `src/` is verified with Verus: every public function states
in its contract what it returns, and the proofs are checked against that.
Where an outside library decides the outcome (whether an SVG or raster
image converts, and the bytes of the PNG it gives), the contract states
what holds of every outcome: the file is kept as it was, or becomes, under
the new name, a PNG that the converter made from the file's own bytes.

- `xml`, `docx`, `document_xml`: the XML parts of a package, read with
  `quick_xml` and interpreted by verified state machines (styles,
  relationships, numbering, and the body, whose parser is specified step by
  step in `document_xml`); `document_laws` proves what every parsed document
  satisfies.
- `package`, `media`: the ZIP archive (`zip`) and its media files (SVG
  rendered by `resvg`, raster formats re-encoded by `image`).
- `normalizer`, `normalizer_laws`: the clean-up passes over the parsed
  elements and their laws.
- `escaper`, `renderer`: LaTeX escaping and rendering for each template.
- `report`, `output`, `cli`, `auth`: the validation report, output paths and
  the command-line vocabulary.
- `text`, `model`: characters and strings, and the document model with its
  mathematical view.

`app/` holds the command itself: argument parsing with `clap`, files,
ImageMagick for EMF/WMF images, the LaTeX compilers, and the floating-point
column widths of tables.  `tests/` exercises the library.
