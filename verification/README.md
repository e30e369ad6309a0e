# zexe_swap

Verified services around a ledger of private coins.

* `src/field.rs`, `src/curve.rs`: field elements, and the group that coins are committed to in.
* `src/groth.rs`: acceptance of the Groth16 proofs that participants make on their own.
* `src/swap.rs`: verification of swaps. The coins that the participants' joint proof speaks of have
  to be those that their own proofs committed to, up to the correction of refunded amounts.
* `src/onramp.rs`, `src/ledger.rs`: on-ramp transactions, the ledger, and the steps by which an
  accepted on-ramp transaction or swap enters it.
* `src/coin.rs`, `src/randomness.rs`, `src/spend.rs`: coins and keys, the keystream that coins draw
  their randomness from, the witness and the public inputs of a spending proof, and the equalities
  that its circuit enforces.
* `src/client.rs`: the client's requests to the order service, and what it does with the answers.
* `app/`: the client and the verifier as programs. They need the `lib_mpc_zexe` library, which
  provides the commitments, gadgets and encodings.

What the arithmetic crates compute is stated in the contracts of the functions marked
`external_body`; everything else in `src/` is proved. `app/` is ordinary Rust and is not verified.
