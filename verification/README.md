# image_organizer

The core of a desktop image organizer: it indexes the images under a library folder,
reads their dimensions, format and shooting information (EXIF), and renders cached
WebP thumbnails.

`src/` is the library, written in Verus and verified:

- `pathname`: file names and extensions under Unix or Windows path rules (`PathStyle`),
  the image-file whitelist, path normalisation.
- `scanner`: one library scan as a state machine (which files are new, changed,
  unchanged or missing, and the progress reported), with its laws.
- `path_index`: the path-keyed index of rows that a scan compares against.
- `metadata`: image probes and the EXIF tag whitelist, with value trimming.
- `thumbnail`: `Picture` (a decoded image with its size and pixel type), cache plans,
  decoding, fitting and encoding of thumbnails, HEIF pixel packing, and the counter
  that bounds concurrent decodes.
- `calendar`, `text`: UTC timestamps and the text formatting they need.
- `images`, `library`: row types, messages and the library-path check.

`app/` holds what runs around it: the SQLite store, the directory walk, file I/O,
HEIF decoding and the desktop commands.
