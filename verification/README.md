# myrti

The processing core of a photo and video gallery server, verified with Verus.

`src/` holds the logic, each function with a contract that Verus proves:

- `catalog`: encoding and image conversion targets, storage keys, and the rules that decide
  which thumbnails, image conversions and video packaging an asset needs.
- `scheduling`: the job queues of the image and video processors, the scheduler's decisions
  and reading `df` reports.
- `actor`: the indexing actor's decisions, and the steps of an indexing run's walk over an
  asset directory (which entries the exclusion and inclusion patterns leave out, and which
  directories are complete).
- `processing`: the steps of indexing a file (from its path to the asset to create), command
  lines of ffmpeg, gpac and the Shaka packager, reading ffprobe's stream
  report, locating an mp4 track's rotation matrix, and supervising external processes.
- `timeline`: grouping a timeline section into segments and series.
- `config`, `model`, `text`: configuration, catalog records and string helpers.

`app/` is the I/O around it: reading the configuration file, running `df`, ffprobe,
ffmpeg, gpac and the Shaka packager, supervising processes, walking asset directories,
patching mp4 files, turning the catalog's query results into jobs by the library's rules,
and the loops of the indexing actor and the scheduler.
