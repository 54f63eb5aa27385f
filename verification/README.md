# desktop-environment

Two desktop utilities for Windows, with their logic verified by Verus:

- `display-relay` mirrors one display into a local window and forwards the
  mouse and the keyboard back to it.
- `audio-output-router` clones the audio of one output device into another.

## Layout

`src/` is the library. It takes what the host reports as plain values and
returns what is to be done; it performs no I/O of its own.

| Module | What it decides |
| --- | --- |
| `single` | single-precision arithmetic, exactly, in integers |
| `geometry` | display areas; window, display and absolute coordinates |
| `session` | the settings of a relay session |
| `host` | what a host offers, on Windows and elsewhere |
| `display` | which outputs are displays, and how they are found |
| `setup` | the steps of setting up a capture, and which failure is told |
| `duplicator` | frames, copied out of mapped memory |
| `render` | frames, scaled to a window |
| `keys`, `input` | scan codes and injected events |
| `relay` | the reaction of a session to the events of its window |
| `audio` | devices, selectors and routes |
| `wave`, `pump`, `router` | stream formats, and carrying packets along a route |
| `text`, `wide` | case, numbers and UTF-16 |
| `relay_command`, `router_command` | the command lines |

Each function states its result in its contract. The functions named `law_*`
are theorems about the library as a whole: that a packet is replayed byte for
byte before it is released, that the target plays in the format of the source,
that a pixel of the window stands for a pixel of the display, and how a session
ends: its window is closed, the escape key is pressed, or the host fails to
resize or to redraw, as it does once access to the display is lost.

`tests/` runs the library on concrete values, and compares its arithmetic with
that of the machine. `app/` is the program around it: the event loop, the
window, and the Windows interfaces. It is one program, which is the router
where it is started as `audio-output-router` and the relay otherwise.

## Usage

```text
display-relay list
display-relay mirror \\.\DISPLAY3 [--fullscreen] [--timeout-ms N]
audio-output-router list-audio-devices
audio-output-router route <SOURCE_MATCH|default> <TARGET_MATCH|default>
```
