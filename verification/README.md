# ATVVoice

A daemon that captures voice audio from BLE TV remotes (Android TV Voice over BLE, ATVV) and
offers it as a PipeWire virtual microphone.

- `src/` is the library: the wire protocol, the ADPCM decoder, the session state machine, the
  search for devices and characteristics, the course of the daemon and its names. All of it is
  verified with Verus. It computes on plain values and performs no I/O.
- `app/` is the program around it: BlueZ, D-Bus, PipeWire, the clock and the command line. It
  hands the library what arrives and performs the actions that it gets back.
- `tests/` runs the library on concrete values.

## Usage

The remote has to be bonded (pair it with `bluetoothctl`).

| Flag | Default | Description |
|------|---------|-------------|
| `-d, --device` | auto | Bluetooth address of remote. Auto-detects first ATVV device if omitted. |
| `-a, --adapter` | auto | BlueZ adapter name |
| `-g, --gain` | 20 | Audio gain in dB |
| `-m, --mode` | toggle | `toggle` (press on/off) or `hold` (hold to stream) |
| `--frame-timeout` | 5 | Seconds without frames before auto-closing mic. 0 = disabled. |
| `-t, --idle-timeout` | 0 | Seconds since last button press before auto-closing mic. 0 = disabled. |
| `--keep-alive` | 10 | Seconds between keepalive commands while streaming. 0 = disabled. |
| `-n, --name` | | Instance name suffix. Sets PipeWire node and D-Bus name. |
| `--description` | BLE device name | PipeWire node description |
| `--no-dbus` | | Disable D-Bus control interface |
| `--mic-on-demand` | | Open and close the mic as listeners come and go |
| `-v` | off | Verbosity (`-v` debug, `-vv` trace) |

## What is not proved

The library believes, without proof, the contracts of four items: how bluer reads and writes
a Bluetooth address, that `String::push` appends a character, and that the standard library's
`Debug` form of a string depends on the string alone. Gain is applied in `app/`, in floating
point.
