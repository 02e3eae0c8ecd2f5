# Wavefront

One device captures sound and streams it out with time stamps; every other device, a browser
tab or the native application, plays it in step. A relay on a public host fans one stream out to
all speakers where devices cannot reach each other directly.

- `src/` is the library: every decision of the master, the relay and the speakers, verified with
  Verus. It holds the wire format, the registers of clients and children, the sessions, the
  commands of the user, the relay's history, the play queue, the clock estimate and the verdict on
  sync outliers.
- `app/` is the program around it: sockets, sound devices, the user interface, and everything that
  takes floating-point arithmetic. `wavefront relay` runs the relay; without an argument the
  desktop application starts.
- `tests/` runs the library on concrete values.

Times, gains and frequencies are binary64 numbers. The library carries them as bit patterns
(`quantity::Quantity`): it stores, passes on and compares them, and the program does the sums.

Each part of the system is a state machine. A spec function says what an event does to
the state and what is sent for it (`relay::RelayState`, `state::App`, `server::Session`), and the
executable function of the same step is proved to agree with it. The laws that span several steps
are proof functions beside them, and `protocol` holds those that span both ends of a connection.

JSON is read and written by `serde_json`. What is trusted of it stands in `json`, and nothing
else in the library is.
