# telegramail

The e-mail transport of Telegramail, a chat client that carries messages over
e-mail (Delta Chat-compatible headers, Autocrypt key exchange, OpenPGP).

* `src/` is the library, verified with Verus: reading fetched messages
  (`email::imap`), choosing which unseen messages to fetch, the reconnecting
  watcher and the IDLE stop decision, assembling chat and handshake messages
  (`email::mime`, `email::handshake`), the own key pair, the Autocrypt header and
  OpenPGP encryption (`email::pgp`, calling the `pgp`, `rand` and `base64` crates), the SMTP
  port probe (`email::smtp`), keychain account names and the stored port's
  text form (`email::storage`), the peer keyring's newest-key-wins rule
  (`email::db`), and deep-link handling (`deeplink`). `text` holds the
  character-level operations with their models.
* `app/` is the I/O around it: keychain, SQLite, SMTP and IMAP connections,
  the watcher's async loop, and the JSON forms of the results and events.
* `tests/` runs the library on concrete inputs.
