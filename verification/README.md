# video-gen (verified library)

Pairs still images with audio tracks by basename and lays them out as one
mp4 timeline (optional lead-in, gaps and tail of silence), encoded segment by
segment with ffmpeg and joined with the concat demuxer.

- `src/` is the library, proved with Verus:
  - `discover` pairs scanned files by basename (1:1, duplicates rejected,
    results sorted by basename);
  - `plan` lays out the timeline;
  - `ffmpeg` builds the ffmpeg/ffprobe arguments, the concat list, and reads
    ffprobe reports;
  - `build` holds the build options, the output-path rules, and
    `build::machine`, the build as a state machine that decides every step;
  - `log` formats progress lines (text, quiet, JSON);
  - `cli` reads the integer flags and picks the log mode;
  - `text` holds the string routines the others share.
- `app/` is the `video-gen` command: argument parsing, the directory scan,
  running ffmpeg/ffprobe, the file system, and the two floating-point
  conversions (seconds and ffprobe durations).
- `tests/` exercises the library.
