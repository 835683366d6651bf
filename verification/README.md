# drawio-lc

Builds a slide deck from one draw.io document. A YAML file lists the slides:
each slide starts from the document (or from an earlier slide) and applies a
list of transforms — recolouring cells, showing or hiding tagged elements,
replacing labels, importing Markdown, embedding images, adding a title slide —
and the slides are exported as PNG, animated GIF, MP4, an HTML slideshow and a
PDF, and can be pushed to a Confluence page.

## Layout

- `src/` is the library, verified with Verus. Every public function states
  what it returns in its `ensures`, over spec functions on plain values:
  - `text`, `style`: character sequences and `key=value;` styles;
  - `xml`, `markdown`, `cell`, `transform`, `validate`, `apply`: reading the
    document, patching each cell, and applying a slide's transforms;
  - `config`, `yaml`, `run`: the configuration, its checks, and the plan of a
    run (file names, frames of an animation, digests of unchanged steps);
  - `gif_export`, `html_export`, `pdf_export`, `json`, `confluence_export`:
    what the exports and the Confluence requests are made of;
  - `laws`: properties that span several functions, stated and proved as
    proof functions.
- `tests/` runs the library on concrete values.
- `app/` is the command: argument handling, files, the draw.io CLI, ffmpeg,
  the GIF encoder, the PDF writer and the HTTP requests, around calls into the
  library.

Calls into outside crates that the library makes (quick-xml, pulldown-cmark,
base64, image, sha2, hex, serde_yaml, serde_json) go through small wrappers
whose contracts are trusted; each one's doc comment says what it claims.
