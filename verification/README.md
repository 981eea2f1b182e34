# zcash_warp

The logic of a Zcash light wallet, verified with Verus: keys and addresses,
payment planning and fees, transaction reading, memos, messages and contact
lists sent on chain, payment URIs, witnesses and chain bookkeeping.

- `src/` is the library. Every function in it is verified against its
  `requires` / `ensures`; the calls into the Zcash crates (key derivation,
  address and key encodings, transaction parsing, note decryption, ZIP-321
  URIs) stand behind small trusted wrappers whose contracts say what those
  crates do, and name the results that take pages to state.
- `tests/` runs the library with the real outside crates linked.
- `app/` is a command line wallet around the library: argument handling,
  the SQLite database and files.

Modules of `src/`: `account` (account model, transfers, gap scans,
downgrades), `address` (decoding and filtering addresses, TEX addresses),
`chain` (networks, heights, the search of a height by time), `contacts`
(contact lists in chunked memos), `data` (plain data types, configuration),
`data_split` (RaptorQ packets for QR codes), `encoding` (hex, Base58Check, address texts), `fee` (ZIP-317 fees), `hasher` (the Sapling and Orchard
Merkle hashes), `keys`
(seeds, key detection, account keys, backups), `memo` (ZIP-302 memos and
messages), `pay` (payment planning and signing plans), `rawtx` (reading raw transactions),
`txdetails` (transaction details and history), `types` (pool masks), `uri`
(ZIP-321 payment URIs), `witness` (note commitment tree witnesses).
