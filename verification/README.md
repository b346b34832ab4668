# xmip_core_identify

The first gate of an arrival: who is claimed. Identifiers read claims off a
connection (before a Message exists) or out of a Message (after it exists);
each reading asks every identifier in order, keeps every claim, and stops at the
first identifier that fails outright. A claim records the mechanism that read
it, the claimed value, how it was established and the evidence seen with it;
it proves nothing.

- `src/vocabulary.rs`: how a Stream arrived, how an identity was established,
  layers, mechanisms.
- `src/content.rs`: Streams and Messages.
- `src/arrival.rs`: a Stream arriving and its named properties.
- `src/claim.rs`: claims and the identification error.
- `src/gate.rs`: the identifier traits, the two readings and their laws.
- `app/lib.rs`: the error with `Display` and `std::error::Error`.

Everything under `src/` is verified with Verus; `tests/` runs it.
