# amlogic_cb_tools

Tools for the Amlogic A113D control board of Antminer S19j Pro machines:
the APW12 power supply, the hashboards (UART replies, TMP75 sensors,
EEPROM, PIC microcontroller), fans, LEDs, GPIO pull bias, I2C probing and
an SSD1306 display.

## Layout

- `src/` — the library, verified with Verus: frame codecs of the PSU and
  PIC protocols, the byte-by-byte reply reader, the EEPROM deciphering and
  field decoding, the GPIO bank and pull-register map, the hashboard reply
  framing and counting, the text and number handling of the command lines,
  and the command-line parsers of every tool. Laws that relate several
  functions are public proof functions (`lemma_*`).
- `app/` — what stays outside the verifier: device access (Linux I2C and
  serial devices, sysfs files, `/dev/mem` register mappings), the
  floating-point conversions, printing, and the `main` of each tool.
- `tests/` — tests of the library on concrete values.
