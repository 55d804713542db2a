# echokit

The firmware logic of a voice-assistant device with a small display, as a Verus library.

- `src/` is the library. What it computes and decides is stated in contracts and proved.
  - `setting`, `store`: the settings and how they are read from non-volatile storage.
  - `http`, `response`, `api`, `json`, `page`: the HTTP server on which the device is set up.
  - `device`: what a change does to the device and what a restart brings back.
  - `server_url`: the address of the voice server.
  - `network`, `script`: joining a Wi-Fi, fetching, posting, updates over the air.
  - `boards`: the display, the sound input and the status pixel.
  - `keys`, `boot`: the keys and the way the device starts.
  - `text`: searching, trimming, and numbers as text.
- `app/` is the program around it, for ESP-IDF. It carries out what the library tells it to do and
  reports back what came of it.
- `tests/` runs the library on concrete values.

Work that only the device can do is not called from the library. A state machine says what is to be
done next (`action`, `request`), and takes what came of it (`report`, `reply`). The properties that
hold of whole runs are the proof functions whose names begin with `law_`.

Two outside pieces are trusted: `serde_json`, behind the items in `json`, and
`String::from_utf8_lossy`, behind one function in `http`.
