# rxscope

The verified core of a shortwave receiver and decoder, written in Verus.

`src/` is the library; every function in it carries a contract that Verus
proves:

- `config`: the INI document (reading, writing, typed values, lists, the text
  form), the configuration enumerations, and the settings sections made of
  whole numbers, flags, enumerations and text, including the band stack and
  the composition of the side panel.
- `decode`: the PSK31 varicode table and bit framing, the five bit teleprinter
  alphabet and its shift states, the parity and alphabet decisions of the
  teleprinter frame, the keying pattern table, the assembly of decoded text
  into lines and the bounded line history.
- `common`: errors, log level decisions and the sample ring buffer.
- `font`: the shelf packed glyph atlas.
- `dsp`: whole number decisions of the signal path.
- `text`, `number`: character and number helpers the rest is stated with.

The proof functions whose names end in `round_trip`, `decodes`, `holds`,
`unique` and the like state what the library promises across calls: what is
written reads back, what is transmitted decodes, what a history keeps.

`app/` holds what the library cannot: files, threads, the clock, and the
floating point settings and signal processing. `tests/` exercises the library
on concrete values.
