# Muni

The decision logic of a dictation app for macOS: hold a hotkey, speak, let go,
and the text is inserted into the app that has the focus. The logic is a Verus
library: its functions have contracts, and what spans several of them is stated
as laws. Verus proves both, on the trust that is named below.

## Layout

- `src/` is the verified library.
  - `hotkey`, `hotkey_binding`, `shortcuts`: the gestures of the hotkey, which
    bindings are accepted, and binding shortcuts anew while the app runs.
  - `my_words`, `substitution`, `regex_engine`: the user's own substitutions.
  - `injection`: inserting text by way of the clipboard.
  - `hud`: when the overlay is shown and hidden.
  - `parakeet`: the frames of the local speech sidecar, and what happens when it
    fails.
  - `boot`, `config`, `settings`, `launch_item`, `permissions`: starting the app.
  - `history_store`, `press_timing`, `prices_client`, `pricing`: what is stored
    and fetched.
  - `text`, `order`, `calendar`: strings, stable sorting and months.
- `tests/` runs the library on concrete values.
- `app/` is ordinary Rust around the library: the environment, the database, the
  network, the sidecar process and macOS.

## What is trusted

The contracts of a few functions of other crates and of the standard library are
believed, not proved: compiling, escaping and matching patterns (`regex`), writing
a month (`time`), the Unicode tables for letters and case, and lossy UTF-8
decoding. Each stands with a doc comment that says what is believed of it.
