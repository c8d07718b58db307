# vortex_bloom

Bloom filters that summarise the zones of a columnar file, and the skip index that prunes zones
with them. Written in Rust and verified with Verus.

A zone whose filter does not hold a value cannot contain that value. The library states this, and
what every operation on filters does to their bits, as contracts and as lemmas named `law_*`.

## Layout

- `src/bits.rs`: the model. A filter is a flat sequence of bits, whatever its layout in memory.
- `src/bloom_filter/`: the split block filter. `partial` holds the filter itself, `scalar`,
  `constant` and `canonical` feed scalars and arrays to it, `aggregate` is the per-zone aggregate,
  `laws` is what holds of filters as a whole.
- `src/bloom_i64/`: the classic filter over 64-bit signed integers.
- `src/skip_index/`: the skip index interface, the probe of stored filters, the rewrite of
  equality predicates, and the proof that pruning is sound.
- `src/hash.rs`: the hash functions. The two calls into `twox-hash` are the only code that is
  trusted rather than proved.
- `src/le.rs`, `src/scalar.rs`, `src/dtype.rs`, `src/nonzero.rs`, `src/text.rs`: byte order,
  values, types and text.
- `app/`: implementations of the Vortex traits in terms of the library.
- `tests/`: tests of the compiled library.
