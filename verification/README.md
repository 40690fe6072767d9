# clear_msig

A multisig wallet whose members sign readable texts. A wallet has intents:
what may be done, who may propose it, who has to approve it, and how long to
wait. A proposal names an intent and its parameters; every proposal, approval
and cancellation carries an ed25519 signature over a text such as

    expires 2030-01-01 00:00:00: approve remove intent 3 | wallet: treasury proposal: 7

behind the header of a Solana offchain message, so that a hardware wallet can
show what is signed.

The library is written in Verus: what each function returns and changes is
stated in its contract and proved.

## Layout

- `src/state/`: wallets, intents and proposals.
- `src/utils/`: the texts that are signed, and what they are made of: base58,
  timestamps, intent definitions.
- `src/instructions/`: the handlers: creating wallets, proposing, approving,
  cancelling, executing, cleaning up. An execution comes out as what is left to
  do: an account to create, an intent or its body to write, or instructions to
  invoke.
- `src/clear_msig_anchor.rs`: the instructions as they are called, with the
  checks on the accounts.
- `src/pda.rs`, `src/accounts.rs`, `src/address.rs`: where accounts are.
- `src/client.rs`, `src/metas.rs`, `src/bench.rs`, `src/report.rs`: messages,
  instruction data and accounts as a client builds them, the cases of a
  benchmark, and the report on its results.
- `src/crypto.rs`: the calls into other crates (signatures, hashes, derived
  addresses), with what is taken for granted of them.
- `src/laws/`: what holds of the program as a whole: a message shows what is
  signed and cannot be taken for another; the status of a proposal follows from
  its votes; an intent counts its open proposals; a custom intent keeps to its
  definition.
- `app/`: the benchmark's program, and the adapter to the on-chain framework.
- `tests/`: scenarios and examples.
