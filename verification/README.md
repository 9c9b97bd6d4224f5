# midair

The verified core of a GPS tracker that talks LoRa in the air and BLE on the
ground. A board carries two chips: a WIO-E5 (STM32WLE5), which holds the GPS,
the LoRa radio and the SD card, and an ESP32-C6, its BLE and USB face.

- `src/` is the library, in Verus: frame and packet formats, the parsers, the
  configuration text and its store, the mesh relay, the radio's register
  values and timing, the SD card dialogue and log, firmware staging and the
  page swap of the bootloader, and the state machines of both main loops.
  What they promise together stands beside them as proof functions named
  `law_...`.
- `app/` is the firmware around it: pins, buses, interrupts and tasks. The
  library decides, `app/` performs the step and hands back what happened.
- `tests/` runs the library on concrete values.
