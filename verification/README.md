# growhat

A controller for the Grow HAT Mini: moisture readings, a small display with four buttons,
bounded pump pulses, and MQTT discovery for Home Assistant.

`src/` is the library. It is written in Verus, and every rule in it is stated as a contract
and proved: which configurations are accepted, how edges become rates and samples become
readings, what the screen shows pixel by pixel, how buttons are debounced, when a pump may
run, and what is said to the broker. It touches no device, socket, file or clock. Where a
task alternates between the outside and a decision (a measurement, a pump request, the panel,
the conversation with the broker), the library holds the decision as a small state machine
that is told what happened and answers what to do next.

Frequencies are binary64 numbers that the library carries by their bits; the arithmetic on
them, and their rounding for people, belongs to the program.

| module | subject |
| --- | --- |
| `config`, `path` | the configuration and its rules |
| `hardware`, `measurement` | edges, windows and one measurement of the inputs |
| `sensor`, `batch` | samples, readings and how they age |
| `glyph`, `canvas`, `message`, `screen`, `display` | letters, pixels, lines, frames and transfers |
| `button`, `panel` | debouncing, counting, and the panel at work |
| `pump`, `pulse`, `pwm` | limits and ledger, the run of a request, the modulated output |
| `json`, `topic`, `request`, `discovery`, `board`, `session` | documents, topics, requests and answers, announcements, button states, the conversation |
| `text` | small pieces of text handling |

Statements that relate several functions stand beside them as proof functions whose names
begin with `law_`.

`app/` is the program around the library: the command line, TOML and JSON forms, GPIO, SPI,
files, threads and the MQTT client. `tests/` runs the library on concrete values.
