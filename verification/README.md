# blinksy

An LED control library for 1D, 2D and 3D LED setups, whose core is
verified with Verus.

- `src/` is the verified core: channel orders of LED chipsets, the APA102
  "high definition" brightness handling, the frames of the APA102, LPD8806,
  WS2812 and SK6812 chipsets, the bit-banged signals of clocked and
  clockless protocols, MSB-first bit iteration, and the walks over lines
  and (serpentine) grids of LEDs. Each function states its result in its
  contract; the laws that span functions are public proof functions.
- `app/` is the rest, in ordinary Rust: floating-point color spaces,
  layouts in space, patterns, the drivers over `embedded-hal` pins and SPI
  buses, the controller, and a desktop simulator window.
- `tests/` runs the core on concrete values.
