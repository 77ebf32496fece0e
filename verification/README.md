# mmd_ffmpeg_encoder

The logic of the MMD FFmpeg video encoder, a DirectShow video compressor
that hands MikuMikuDance's frames to an `ffmpeg.exe` child process, and of
its configuration program, written in Verus and verified.

- `src/` — the verified library:
  - `annexb` cuts ffmpeg's H.264/HEVC elementary stream into access units;
  - `encoder` builds the ffmpeg command lines, probes and resolves encoders;
  - `config`, `ini` read FFmpegEncoder.ini for the filter; `ui`, `form` read
    and write it for the configuration program and map its form;
  - `state` is the per-stream state machine (timestamps, held frames,
    end-of-stream), `frame` cuts received DIB frames to tight rows;
  - `mediatype`, `allocator`, `enums`, `wide`, `com` are the DirectShow and
    COM decisions; `filter` the run/stop plans; `paths`, `text` helpers.
- `tests/` — tests of the library.
- `app/` — the Windows DLL around it: COM objects, the ffmpeg process,
  files, registry and crash dumps (needs the `windows` crate on Windows).
