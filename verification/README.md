# precompress

Compresses text-like files (CSS, HTML, JavaScript, JSON, SVG, WebAssembly and
others) into brotli, LZW ("compress"), deflate, gzip and zstd at once, next to
the originals, and cleans such outputs away again. MD5 records (`f.md5`) let
unchanged files be skipped on the next run.

Layout:

- `src/` — the verified library: validation of the settings and choice of
  command (`args`), formats and output names (`compress_type`, `paths`), the
  compressors and MD5 behind trusted wrappers (`codecs`, `digest`), the record
  check that decides what to redo (`freshness`), one compression task (`task`),
  the regular expression and the globs of a search behind trusted calls
  (`pattern`, `globs`), choosing files among those found (`search`), the
  reports of a cleaning run (`clean`) and of a compression run (`report`),
  the component order of paths (`path_order`),
  stable sorting (`sorting`) and text building (`text`).
- `app/` — the program: command line, directory walking, file reads and
  writes, the thread pool, progress bars, and the formatting of the two
  floating-point values of the compression report (ratios, elapsed time).
- `tests/` — tests of the library on concrete values.
