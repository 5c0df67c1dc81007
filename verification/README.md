# look_everyting

A local viewer for images, videos and 3D models. The viewer's logic is a Verus-verified
library (`src/`); the window, file access and floating-point geometry live in `app/`.

## Library modules

| Module | What it decides |
|--------|-----------------|
| `media` | media kind of a path from its extension; supported extension lists |
| `extension_laws` | the extension lists agree with classification |
| `browse` | media entries of a folder listing; where an opened file stands in it |
| `settings` | persisted settings and their defaults |
| `raster` | which files decode, preview and view sizes, native-size bookkeeping (decoding itself by the `image` crate) |
| `pixels` | in-place rotation and flips of RGBA buffers |
| `yuv`, `frames` | NV12/YUY2/RGB32 video samples to RGBA |
| `cache` | least-recently-inserted image cache |
| `loader` | load generations, path comparison, routing of finished loads |
| `subtitles` | SRT and ASS cue extraction, override tags, WebVTT payloads, sidecar subtitle files |
| `embedded` | choice of a container's text subtitle track, text of its samples |
| `video` | video format information, Media Foundation URLs, audio track choices |
| `playback` | decode-thread commands and reports, frame reads, decoder output format, stepping back |
| `model` | model summaries, loader dispatch, texture expansion, preview simplification, 3MF ordering |
| `i18n`, `theme`, `colors`, `fonts` | strings, theme resolution, colour tokens, font locations |
| `viewer`, `shortcuts`, `schedule` | navigation, labels, playback clock, batch renaming, keyboard shortcuts, animation pacing, thumbnail queueing |
| `shell` | values written when registering file associations |
| `text` | character-level helpers: case, white space, splitting, joining, numerals |

Each public function states its result in its `ensures`; laws relating several
operations are public proof functions named `law_*`.

## Layout

- `src/` — the verified library.
- `tests/` — tests of the library on concrete values.
- `app/` — the egui application: file reading, settings file, geometry loaders, window.
