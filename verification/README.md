# mm2-rtui

A terminal wallet for the Komodo DeFi Framework (KDF). It starts a KDF node,
lets the user choose a wallet, activates UTXO coins, shows balances and
transaction history, and withdraws funds.

The crate is written in Verus. Its library (`src/`) holds the wallet's logic
with machine-checked contracts:

- `app` — the screen state (coin list, modals, history paging, swaps
  selectors) and its transitions;
- `events` — what each key press and paste does to that state, and which
  outside work it asks for;
- `coins` — coin records, balance text, decimal amount parsing, activation
  parameters and status details;
- `config` — the `MM2.json` document: RPC password, initial content, wallet
  fields;
- `kdf_client` — RPC request bodies and response records;
- `display` — the texts the screen shows;
- `qr_compact` — QR codes drawn with block characters;
- `kdf_process` — finding running nodes and probing a node while it starts
  or stops;
- `logger`, `json`, `text`, `file_manager` — supporting pieces.

`app/` is the program around it: terminal I/O, HTTP calls, files, processes
and drawing with ratatui. `tests/` exercises the library.
