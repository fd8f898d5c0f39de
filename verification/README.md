# uruk_protocol

The contracts of a synthetic-asset protocol on Stellar, as state machines that
Verus verifies.

Each contract is a plain value with one method per call. A method takes the
arguments of the call and what it reads of the ledger, and gives back the
effects that the ledger has to carry out, in order, or the reason why the call
is refused. A refused call changes nothing. What other contracts answer (prices,
deposits, shares) comes in as arguments.

| Module | Contract |
| --- | --- |
| `sep41_token` | a synthetic token |
| `oracle_twap` | prices reported by providers, and their time-weighted average |
| `synthetic_engine` | vaults, minting against collateral, liquidation |
| `liquidity_pool` | constant-product pools |
| `stability_pool` | deposits that absorb liquidations |
| `earnings_distributor` | revenue by epoch, and how it is shared out |
| `dao_governance` | proposals, votes and multi-signature wallets |
| `compliance_registry` | attestations, countries, limits on transfers |
| `partner_registry` | integrators, their revenue and their assets |

In each of them `model.rs` says what every call does to the state, `mod.rs` is
the code that is proved to do just that, and `laws.rs` states and proves what
holds over several calls. `arith`, `sums`, `table`, `types` and `error` are
shared. `host` and `strkey` hold what is taken on trust of `soroban_sdk` and of
`core`: the lists of the host, the decoding of addresses, and UTF-8.

`app/` binds the contracts to the ledger: it reads the records that a call
touches, lets the library decide, writes the records back and carries out the
effects. `tests/` runs the library on concrete values.
