# sound_multiplexer_audio

Plays one system audio stream on several output devices at once. The rules are a
library in Verus: every function under `src/` is verified against its contract.

Routing depends on how many devices are enabled:

| enabled | Linux (PulseAudio, PipeWire)                      | Windows                                                     |
|---------|---------------------------------------------------|-------------------------------------------------------------|
| none    | a null sink is the default                        | the default endpoint is muted                               |
| one     | that sink is the default                          | that endpoint is the default                                |
| more    | a combined sink over them is loaded and is default | the primary is default and captured, the others play a copy |

The primary is the present default endpoint where that stays enabled, else the
first one that is enabled.

## Layout

- `src/device.rs`, `src/backend.rs`, `src/commands.rs`: device rows, enabled sets,
  what a platform does, the commands of the user interface and the pump of events.
- `src/linux/`: routing, startup, cleanup and monitoring as state machines that
  name the next `pactl` command and take its reply; sink listings and module
  listings.
- `src/windows/`: endpoints, routing, the capture and render streams, and the
  watches, as state machines in the same way.
- `src/fanout.rs`, `src/volume.rs`, `src/text.rs`: ring buffers, volumes, text.
- Files named `*_laws.rs`, and the section "Laws" of the others, state what holds
  over several calls or whole runs.
- `app/`: the program around the library. It runs `pactl`, talks to Windows, and
  serves the window. It decides nothing that the library decides.

A volume is the bit pattern of a 32-bit float. The library orders and clamps
volumes by their bits; arithmetic on them is left to `app/`.

## What is trusted

`String::push`, `str::to_lowercase`, debug formatting of text, and the lookup of
a text property in a JSON object of `serde_json`. Each is declared in one place,
with what is claimed of it.
