# burn-in-zh-subtitles

A verified library, with a thin command-line program around it, that burns
Traditional Chinese subtitles into a video with `ffprobe` and `ffmpeg`.

## Layout

- `src/` — the library, verified with Verus:
  - `text.rs`: strings as character sequences, trimming, lines, words,
    decimal numbers;
  - `chars.rs`: Unicode categories, scripts and East Asian widths, display
    widths and line-break opportunities;
  - `wrap.rs`: tokenizing ASS dialogue text and wrapping it to a line
    capacity;
  - `subtitle.rs`: subtitle layout from the video height, and rendering of
    converted ASS files;
  - `config.rs`: command-line inputs and environment-driven style settings;
  - `paths.rs`: joining and splitting paths;
  - `ffmpeg.rs`: platforms, tool discovery, ffmpeg command lines and the
    parsing of what the tools print;
  - `managed.rs`: managed ffmpeg releases, cache directories and archive
    members;
  - `platform.rs`: opening the result with the platform's opener;
  - `pipeline.rs`: the burn as a state machine of actions and answers,
    with its laws;
  - `archive.rs`: decoding a downloaded zip or tar.xz archive and taking
    the release's members out of it;
  - `lib.rs`: `run`, which starts a run from the parsed inputs.
- `app/` — the `subembed` program: argument parsing, environment, and the
  file system, network and process work that the pipeline asks for.
- `tests/` — tests of the library.
