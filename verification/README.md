# scaloscope

A gain plugin with a peak meter and a small editor window, plus a terminal
launcher that picks audio devices and starts the plugin standalone.

- `src/` is the verified library:
  - `text`: trimming Unicode white space, parsing unsigned decimals, writing
    integers in decimal, with proofs that written numbers parse back.
  - `gui`: the editor's counter state and what each window message does.
  - `selection`: what a line typed at the device and configuration prompts selects.
  - `launch`: the command line handed to the standalone host.
- `app/` holds the plugin, the iced editor and the launcher's terminal and
  audio-device I/O, which call into the library.
- `tests/` exercises the library.
