# polarust

Turns travel-journal archives (one directory per trip, with `trip.json`,
`locations.json` and a directory of photos and videos per step) into a static
web site.

- `src/` is the verified library: the data model, the enrichment of steps
  (media in file name order, flag and place line, weather line), the GPS track
  in time order, and everything the pages show (summaries, map markers and
  centre, step pages with their navigation, the media to copy). `laws.rs`
  states and proves the properties that span several functions.
- `app/` is the command-line program around it: reading the archives, JSON
  parsing, templates, downloads, file copies and thumbnails.
- `tests/` runs the library on concrete journals.
