# sinsemilla

Sinsemilla hash and commitment over the Pallas curve, computed outside a circuit.

- `src/pad.rs`: zero-padding of a message to whole `K`-bit pieces.
- `src/lib.rs`: constants and `lebs2ip_k`, the value of a little-endian piece.
- `src/curve.rs`: points, base-field elements and scalars held as canonical
  32-byte encodings; the group and field arithmetic is done by `pasta_curves`
  behind trusted items whose contracts name what each call returns.
- `src/addition.rs`: incomplete addition on P ∪ {⊥}.
- `src/domain.rs`: `HashDomain` and `CommitDomain`, with contracts over the
  mathematical model of SinsemillaHashToPoint, and progress reporting
  (`Progress`, with the `Silent` and `Callback` sinks).
- `src/laws.rs`: properties of padding and hashing proved for every input.
- `app/lib.rs`: the API over `pasta_curves` types, bit iterators and callbacks.

Each generator S(j) is computed by hashing to the curve (the
computed-generators path); there is no precomputed `SINSEMILLA_S` table.
Incomplete addition branches on `Option`, so it does not run in constant time.
