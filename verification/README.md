# token_programs

Verified rules of three on-chain token programs, in Verus:

* `stablecoin`: an admin grants minters a capped allowance and can pause minting; holders
  burn their own tokens.
* `stableswap`: a two-token liquidity pool priced by the StableSwap invariant, with fees
  that rise under stress and a halt when a token leaves its peg.
* `vault`: a collection of eleven kinds of figures, each minted as a token of limited supply.

`src/` is the library. The instructions of `stablecoin` and `vault` take the accounts they
are handed as plain values and return the new state and the requests to send to other
programs, or the reason for their refusal. Those of the pool stand in two layers:
`stableswap::pool` decides and computes the amounts, and `stableswap::settlement` holds the
accounts to their addresses and returns the requests. The `*_laws` modules state what holds
across instructions. `keys` and `accounts` hold the few calls that are trusted rather than
proved: the derivation of addresses and the addresses of the system and token programs.

`app/` loads and stores accounts and sends the requests.
