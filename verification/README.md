# hyperfusion_aod

The decision logic of two Android daemons, verified with Verus.

The wake service lights the panel when a touch gesture arrives while the display
is off, holds a wake lock for as long as the panel is lit, and fades it out after
ten seconds. The other daemon restores the backlight, by the ambient light, when
the panel comes back on with its backlight at zero.

- `src/` holds every rule: state, parsers, formats and the laws that tie them
  together. It does no I/O. What a thread observed goes in as an event; what it has
  to do comes out as an action.
  - `service`, `fade`, `nodes`, `laws`: lighting the panel and letting it go dark
  - `input`, `touch`, `suspend`, `startup`: gestures, the touch panel, its suspend
    state, the start
  - `pref`, `watch`: the preference file and how it is followed
  - `dpms`, `lux`, `sensor`: restoring the backlight
  - `bytes`, `decimal`, `text`: records, numerals and text
- `app/` is the driver: threads, locks, files, the kernel's notices and the light
  sensor.
- `tests/` runs the library on concrete values.
