# Fan, display and button control for a SATA hat

A daemon for a SATA hat with a fan, a small display and a button. The fan follows
the temperature of the processor and, where that is configured, the temperatures of
the drives; the display shows pages on the host; the button slides pages and
switches the fan.

The decisions stand in the library under `src/`, and Verus proves them:

- `config`, `ini`, `cli`, `pin_map`: the settings, the command line, the pins.
- `fan`, `decision`, `stabilizer`, `pwm`: from temperatures to the duty on the wire.
- `smart`, `json`, `smartctl`, `drives`, `drive_state`: the temperatures of the drives.
- `control`: the run of the daemon, as a machine from events to actions.
- `fan_log`, `drive_log`, `cpu_log`: what is logged, and when.
- `oled`, `framebuffer`, `system`, `button`: the display and the button.
- `binary64`, `number`, `text`, `split`, `order`, `paths`, `quote`, `bytes`, `reader`,
  `temp`: numbers and texts.

`app/` is the program around the library. It reads files, runs processes, holds the
devices and the threads, and does what the library says. Floating-point numbers are
read and printed there; the library holds them by their encoding, and times as whole
nanoseconds.

`tests/` runs the library.
