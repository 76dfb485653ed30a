# candy_mint

A candy machine mint whose item is chosen by off-chain randomness, as a
verified library.

- `src/` is the library, verified with Verus:
  - `params`: the `KEY=VALUE` container parameters that name the accounts of a
    mint; encoding and decoding, with the round trip proved.
  - `randomness`: the randomness function's draw in a range and the data of the
    `process_mint` instruction it sends back.
  - `config_line`: choosing the config line of the item, sequentially or by a
    drawn index that is swap-removed from the indices still available.
  - `mint`: the checks of a mint, the reveal of the randomness, and the
    metadata instructions that create, mint and verify the item, as a plan
    that names every account, the program and the signer seeds; `next_step`
    decides how the plan is carried out, stopping at the first failure.
  - `request`: the mint request, its container parameters and the invocation
    that creates the randomness request.
  - `accounts`: the checks on a mint request's accounts (mint authority,
    derived addresses, program addresses, signers, fresh request accounts).
  - `keys`, `text`, `le`, `strings`, `metadata`, `state`: addresses, byte text,
    little-endian integers, name templates, the token metadata program's view
    of the collection, and the account data.
- `app/` runs the randomness function and performs, on chain, the reads and
  cross-program invocations that the library's plans ask for.
- `tests/` holds the tests.
