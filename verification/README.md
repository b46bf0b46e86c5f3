# symphonia_adapters

Audio decoders for [Symphonia](https://github.com/pdeljanov/Symphonia), with their logic proved in
Verus: AAC on top of the FDK AAC library, and Opus on top of a packet decoder of the user's choice.

- `src/` is the verified library. `aac` and `opus` hold the two decoders, `adts` the headers that
  AAC packets are framed with, `meta` what is known of an AAC stream, `planes` the spreading of
  interleaved samples over channels, `params` and `error` the plain types around them. `fdk`,
  `buffer` and `reader` are the only places where outside code is called; their contracts are
  believed, not proved.
- `app/` implements Symphonia's traits with it, and holds what is floating point.
- `tests/` runs it, with the FDK AAC library linked in.
