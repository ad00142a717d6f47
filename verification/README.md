# zcashd_phrase

Recovers the keys of a zcashd wallet from its emergency recovery phrase, without the
`wallet.dat` file. The library is written in Rust and verified with Verus.

One phrase stands for two seeds: the BIP 39 seed, for wallets created by zcashd 4.7.0 or
later, and the raw entropy, for wallets that were upgraded into it. The library derives
the keys of either era or of both, up to limits that the caller sets, and hands them out
as a fixed set for a scan. It never hands out the seed.

| Module | What it holds |
|---|---|
| `zcashd_phrase` | the seeds, the key source, its fingerprint, the address list |
| `search` | what a search derives, as a mathematical model |
| `laws` | what holds of the library as a whole, proved |
| `sapling`, `transparent`, `mnemonic`, `fingerprint`, `secret` | the calls into outside crates, each behind a stated contract |
| `keys`, `models`, `error`, `text`, `bytes` | plain data and text |

`app/` holds the process-wide address encoding that a harness for a private chain may
install, and the errors as `std` errors.
