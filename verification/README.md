# bio_did_registry

The decisions of the Solana verifiable data registry behind the `did:bio`
DID method, written in Verus and proved against their contracts.

A DID lives in one account, at the program address `["bio-did", subject]`,
holding the borsh serialization of its document: the subject, the
controllers, the verification methods and the services. Each instruction
reads the accounts and arguments it receives and decides whether it applies
and what the account holds afterwards.

Keys larger than one transaction (an ML-DSA-87 key is 2592 bytes) are
staged in a key buffer at `["bio-did-key", did_account, authority]`: it is
opened with every rule that does not need the key bytes, filled chunk by
chunk in order, and then either turned into a verification method of the
DID it was opened for or closed. A buffer is bound to the authority that
opened it and to that one DID. Its header is laid out as: discriminator,
DID account, authority, bump, method type, flags (u16), key length (u32),
bytes written (u32), fragment length (u32), a 32-byte fragment slot, then
the key.

## Layout

- `src/` is the verified library.
  - `bytes`, `state`: little-endian encodings, the account layout, the
    bounds-checked walk over its sections, and the byte-level checks.
  - `model`, `roundtrip`: the document a buffer encodes, its serialization,
    and the proof that every well-formed document decodes from its own
    serialization.
  - `rules`: the registry's rules over documents, and the proofs that the
    byte-level checks decide them.
  - `accounts`, `address`, `ix`, `events`, `rent`: account checks, program
    addresses, instruction routing, event bytes, rent quotes and settlement.
  - `instructions`: one module per instruction; each `process` returns the
    account's new content, stated as the serialization of the new document.
  - `key_buffer`: the key buffer's layout, its checks and the chunk rule.
  - `laws`: what holds of every edit (only an update authority edits, an
    authority always survives, protected methods change only under their
    own key, fragments stay unique, limits hold, deactivation is permanent,
    what is written reads back, every edit ends exact and stamped, settles
    its rent exactly and emits its one event).
  - `buffer_laws`: a key buffer is bound to its authority and its DID, and
    its key arrives in order.
  - `parse_laws`: the walk over the sections reads only the sections.
- `app/` is the on-chain program around it: the entrypoint, the runtime's
  accounts and sysvars, system-program calls, and the event log.
- `tests/` runs whole lifecycles through the library and decodes the
  accounts with an independent parser.
