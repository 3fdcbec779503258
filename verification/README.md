# anise (verified core)

Verified pieces of the ANISE SPK Type 21 decoder and of its data set helpers.

- `src/extended_modified_diff.rs`: where the record data, epochs and epoch
  registry lie in a Type 21 segment, where each difference line lies in the
  record data, and where each field lies inside a difference line.
- `src/errors.rs`, `src/dataset_error.rs`: the decoding, integrity, look-up
  table and data set errors, and their equality.
- `src/pretty_print.rs`: the order and labels of the rows of a data set
  description.
- `app/`: the floating-point side (reading the words, interpolation, the
  integrity check), error messages, and table rendering with `tabled`.
