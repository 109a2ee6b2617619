# chain_apps

Verified state machines of three on-chain applications and the text search of
a small command-line tool.

- `src/poe.rs`: proof of existence. Accounts claim byte strings, revoke them and
  hand them over; claims are unique and bounded in length.
- `src/kitties.rs`: kitties with pseudo-random DNA, their owners, transfers and
  breeding with recorded lineage. The deposit of a new kitty is reserved by
  calling the reservation function that the runtime's currency provides, with
  the maker and the configured deposit.
- `src/erc20.rs`: an ERC-20 token whose balances always add up to its total
  supply; spending on another's behalf lowers the spender's allowance.
- `src/hashing.rs`: the Blake2-128 digest of the SCALE-encoded entropy payload
  (through `sp-io` and `parity-scale-codec`).
- `src/text.rs`: the lines of a text and the search for a string within them.
- `src/echo.rs`, `src/cli.rs`: the reply of the echo server and the command line
  of the search tool.

Storage, the caller of a call, the block number and the randomness seed are
inputs of the library's functions; events are recorded in order in each state.
`app/` holds the command-line tool (`find`, `show`, `serve`).
