# nativeshell

The decision-making core of a Flutter desktop embedder for Windows, together
with the build-time helpers that prepare a Flutter bundle, written in Verus
and proved against its contracts.

## Layout

- `src/` — the verified library. Each module states its behaviour in
  `requires` / `ensures` over spec functions and views, and proves the laws
  that tie its operations together:
  - run loop and timers (`run_loop`, `timers`), late-initialised cells
    (`cell`), futures (`future`);
  - windows (`window`, `window_manager`), menus and their update edits
    (`menu`, `diff`), status items (`status_item`), hot keys (`hot_key`),
    screens and displays (`screen_manager`, `display`), keyboard layouts
    (`keyboard_map`), textures (`texture`), bitmaps (`bitmap`);
  - drag and drop: the data object, its formats and effects (`drag`), and
    the clipboard encodings of dragged files and links (`data_util`);
  - the engine's messenger and the Dart VM's value kinds
    (`binary_messenger`, `ffi`);
  - build helpers: Flutter options and asset lists (`flutter_build`), plugin
    lists and registrars (`plugins`), the macOS bundle (`macos_bundle`),
    the engine artifacts (`artifacts_emitter`), YAML and base64 access
    (`yaml`, `base64_codec`), errors (`error`, `build_error`).
- `app/` — ordinary Rust around the library: the loop that runs timers and
  callbacks, file and process work of the build steps, the floating point
  display layout, the raw values exchanged with the Dart VM, and
  serialisable copies of library types.
- `tests/` — tests of the library on concrete values.

Calls into outside crates (base64, diff, yaml-rust, convert_case,
widestring) and into parts of std that the verifier does not model go
through small trusted wrappers whose doc comments say what is assumed of
them.
