# orecchiette_hackrf

The receive side of a HackRF One software-defined radio, with its decisions
verified in Verus.

- `src/` is the verified library.
  - `hertz`: frequencies as IEEE 754 doubles held by their bits, with exact
    comparison and truncation.
  - `rate`: the sample rate that a request is given.
  - `iq`: decoding of interleaved signed 8-bit samples.
  - `error`: why a source could not be started, and the text for it.
  - `source`: gains, device settings and the start-up of the device.
  - `model`: the capture loop as a state machine over requests and events.
  - `scanner`: the executable capture loop.
  - `laws`: what holds of every run of the loop.
- `app/` opens the device, runs the capture thread and performs what the library
  asks for.
- `tests/` runs the library on concrete values.

The library never performs I/O. `Startup` and `Scanner` each hand out a request,
and are told by an event what came of it.
