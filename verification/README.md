# gecol

A perception-aware accent color extractor and dynamic theme generator: it
picks an accent color from an image (or takes one given as `#rrggbb`),
generates a dark or light theme from it and builds the user's templates with
the theme's colors.

## Layout

- `src/` is the library, verified with Verus. It holds what the tool decides
  and computes on whole numbers and text: reading hex colors and writing the
  formats templates use, the color cache, the configuration's paths and their
  resolution, reading the command line, and the decisions of each action
  (what a run does, which templates are built, what is listed and printed).
  Each public function states its result in its contract; the laws that span
  functions are public proof functions (`law_*`, `lemma_hex_roundtrip`).
- `tests/` runs the library on concrete values.
- `app/` is the `gecol` command around the library: the command line with
  clap, the configuration and cache files with serde and TOML, the image work
  (saliency, pixel scores, k-means clustering), the Oklch color math of the
  themes, template rendering with minijinja, and printing. The color math and
  the pixel scores are floating point, which the library does not hold.
