# keepsmile-lamp

Control of KeepSmile KS05-style BLE floor lamps from Linux, through BlueZ over
the system D-Bus.

`src/` is a library verified with Verus. It holds the packets of the lamp's
protocol, the configuration and the stored state, the choice of the lamp and of
its characteristics among the objects that BlueZ manages, and the machines that
decide how the lamp is searched for, connected, written to and listened to. The
public functions state exactly what they return, apart from the one that reads
the clock, and the properties that relate several of them are proof functions
whose names begin with `law_`.

`app/` is the command line program around the library. It reads and writes
files, talks to BlueZ and prints. `tests/` runs the library on concrete values.

## Protocol

- Top and bottom zones are switched by `5bXX01b5` and `5bXX02b5`, where `XX` is
  `f0` for on and `0f` for off.
- Colours are `5a0001RRGGBB00LL00a5` and the white channel is
  `5a0002000000CCLL00a5`, where `LL` is the brightness, clamped to 100, and `CC`
  runs from 0 (cold) to 255 (warm).
- The state is requested by `5f0100f5` and comes as a notification that begins
  with `5f02`.

## What is trusted

The library is proved, except for a few calls whose results it takes as they
are documented: case conversion of text that is not ASCII, appending a character
to a string, the clock, and the check whether a text is a D-Bus object path.
Each stands in an item of its own, marked `external_body` or `assume_specification`.
