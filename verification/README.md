# servo_reg

Control software of an electronic gas regulator on a Raspberry Pi Pico 2W, with
its logic verified by Verus.

- `src/` is the library. It decides what the tasks of the firmware do: following
  the motor shaft from three Hall sensors, driving the motor, playing animations
  on the status LED, reading the buttons, and talking to a client through a W5500
  network chip. Every function has a contract, and what the parts promise
  together stands in proof functions whose names begin with `law_`.
- `tests/` runs the library on concrete values.
- `app/` is the firmware around the library: pins, clock, channels, the chip and
  the encoding of messages.

Numbers in single precision are carried as their encodings (`float32`), and each
operation on them is proved to round to the nearest number. Angles and durations
are counts of their units (`angle`, `time`).
