# balance_board

A verified library for the Nintendo Wii Balance Board (`Nintendo RVL-WBC-01`),
with the launcher, controller bridge and pairing tool around it.

`src/` is the library, proved with Verus. It does no I/O:

| Module | What it holds |
| --- | --- |
| `report`, `buttons`, `sensors`, `error` | HID report parsing (`0x32`/`0x34`), the button bitfield, the four-corner layout |
| `calibration` | the 24-byte EEPROM block, its monotonicity check, exact piecewise-linear weights |
| `read_transaction`, `stream`, `hid` | register-read reassembly, sensor-stream framing and deadlines, output reports, device choice |
| `pin`, `pairing`, `bluez` | Wii PINs, Bluetooth device names, BlueZ output, pairing failures |
| `engine`, `tare`, `zero` | the connection loop's state machine: reconnection, loss detection, clearing and feeding the controller, status texts, stance capture, weight zeroing |
| `cli`, `cache_key`, `linux`, `vjoy` | command line, cache naming, kernel input selection, vJoy axes |

`app/` is the program: hidapi, evdev/uinput, vJoy and Win32 Bluetooth calls,
files, the terminal, and the floating-point weights, center of gravity and
smoothing. It asks the library for every decision.

`tests/` exercises the library on concrete values.
