# windows_rust_counters

Morse code over Windows performance counters, verified with Verus.

A provider of performance counters sends messages in Morse code: each message is
encoded as on and off signals, each signal as a counter value in one of two ranges
(RTSM), one signal per instance at each tick. A monitor reads the counters back,
decodes the values into signals and the signals into text.

## Layout

- `src/` is the verified library:
  - `morse`, `ascii`, `tx`, `rx`, `pair`, `interval`, `rtsm`, `rtsm_proto`,
    `signal_error`: the signal pipelines, the Morse encoder and decoder, and the
    two-range value encoding; `morse_roundtrip` and `rtsm` hold their round-trip laws.
  - `perf`: performance data. `types` and `raw` describe counter types and the binary
    structures, `provide` lays out and writes objects for a provider, `nom` parses
    them, `roundtrip` proves that what is written parses back, `values` reads counter
    values, `display` picks the formula that turns samples into a shown value,
    `consume` parses the names and help texts of counters, `useful` holds instance and
    counter identities and the data of an object.
  - `format`, `winnt`, `error`, `reg`: nul-separated strings, language identifiers,
    Windows errors, and the decisions of registry reads.
  - `monitor` and `morse_counters`: the logic of the Morse monitor and of the Morse
    counters provider.
- `tests/` runs the library on concrete values.
- `app/` is the program around it: the Morse encoder and decoder on the standard
  streams, the terminal monitor, the provider's worker threads, and on Windows the
  registry reads and the entry points of the performance library.
