# pallet_kitties

Two kitty pallets written as verified state machines.

- `kitties_v2`: kitties are created under a DNA key with a DNA drawn from the
  runtime's randomness, listed for their owner, and transferred between
  accounts within a per-account limit. Calls are transactional: a refused call
  leaves storage unchanged. `laws` proves that creating and transferring keep
  ownership consistent and within the limit, and that a transfer and its
  reverse restore the stored kitties.
- `exercise`: kitties numbered by a counter and indexed by DNA; the owner may
  hand one to another account.
- `weights`: the benchmarked weights of `create_kitty` and `transfer`.
- `assoc`: the association-list map that holds storage maps; `origin`: call
  origins and dispatch errors; `codec`: the SCALE encoding of the nonce,
  through `parity-scale-codec`.
