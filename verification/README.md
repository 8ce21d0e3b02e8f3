# audio_reactive

The logic of an audio reactive lighting mode for keyboards, verified with Verus.

Sound is split into eight frequency bands, and each of the sixteen columns of the key matrix shows the
level of one band as a bar of colors.

- `src/` is the verified library.
  - `text`: characters, trimming, splitting, unsigned numbers.
  - `single`: single-precision numbers by their bits, and their order.
  - `config`, `palette`, `names`: the configuration and what is built in.
  - `entry`, `load`, `load_laws`, `reload_laws`: the configuration file, what its settings do, and
    what holds of it.
  - `rng`, `frame`: random palette colors and the rendering of frames.
  - `spectrum`, `capture`: what is analyzed, and the buffer and pace of the capture.
  - `device`: the choice of the audio device, and reports about devices.
- `tests/` runs the library on concrete values.
- `app/` is the program around it: files, audio devices, threads, the keyboard, and the
  floating-point arithmetic between the decisions of the library.
