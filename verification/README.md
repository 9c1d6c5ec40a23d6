# stick

A joystick, gamepad and flight-stick input library whose core is verified
with Verus.

- `src/` is the verified library: the controller events and their
  identifiers, remapping of controllers by a text database (writing it from
  controller files and loading it back), the conversion of Linux evdev events
  into controller events, controller state tracking (reporting changes only),
  the device and port model of the first-generation interface, the
  controller manager's decisions, the conversion of the SDL game controller
  database, and the ordering of pad mapping files.
- `tests/` runs the library on concrete values.
- `app/` holds what the verifier does not take: the command-line tools
  (building the databases, converting the SDL database into TOML pad
  mappings, ordering the TOML pad mappings), file and device I/O on Linux,
  TOML parsing and printing, and the floating-point arithmetic of axes.

Floating-point values cross into the library as their IEEE-754 bit patterns.
