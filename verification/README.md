# mailclient

The logic of a mail client, as a library that Verus verifies, and the programs around it.

- `src/` is the library. The state of the window and what each answer of the service makes of it
  (`shell`, `absorb`, `actions`, `writing`, `trial`), the requests and what their answers are read
  as (`protocol`, `printed`, `envelope`, `worker`), the accounts and their forms (`accounts`, `settings`,
  `account_work`), what the panes show (`panes`, `display`, `body`, `dates`, `quote`, `recipients`,
  `signature`, `compose`), the reading cache (`cache`), the commands of the command line (`cli`)
  and the measuring windows (`bench`, `spike`). Each public function says in its contract what it
  returns and changes; the public proof functions state what holds across functions.
- `tests/` runs the library on concrete values.
- `app/` is ordinary Rust: the command line `mail`, the window `mail-shell` and the measuring
  windows `mail-spike-native`, `mail-spike-software` and `mail-spike-richtext`. One executable
  holds them, and the name that it is called by chooses. Reading, sending, drawing and timing stand
  there; every call into the crates of the store, the protocol and the keychain stands under
  `app/link/`.
