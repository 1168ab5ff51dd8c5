# Codex Account Hub

A local hub for several Codex accounts on Windows: it keeps their logins encrypted for the current
user, shows their usage, and switches the active login of this machine. The rules of the hub are a
library that Verus verifies; the application around it carries out what the library asks for.

## Layout

- `src/` is the library. An operation (`vault::activate_account`, `recovery::run`,
  `commands::log_in`) is a procedure: it asks for an action (`effects::Action`), is given what came
  of it (`effects::Event`), and asks for the next, until it is done. It performs nothing itself, so
  its contract covers every answer, failures among them.
- `app/` is the application: files, DPAPI, processes, the app server, the window and the tray.
- `tests/` runs the procedures against a hub that is kept in memory.

## What is proved

Each function states its result exactly. The modules that end in `_laws` state what holds of whole
courses of events, over the model of the disk and the processes in `world`:

- Replacing the active login leaves the old one or the new one, and a sealed backup of what was
  replaced; of the backups the five newest stay. The update is recorded, sealed, as long as it is
  under way. A switch saves the account that it leaves before it activates the other.
- Deleting an account loses nothing that is still listed, and leaves nothing of the account. A new
  authorization touches no other account.
- A login home that was cleared holds no file. A runtime home that was taken back holds no
  credentials, and those that a query renewed are in the vault; where they cannot be saved they stay.
- An interrupted update is settled at the next start; if it cannot be, its record stays. A recovery
  that nothing is in the way of asks for no attention, and a second one finds and changes nothing.
- Only a process that the hub recorded, and that still has the recorded identity, is ended.
- A login can be cancelled until it is saved, and only by its own request; it then changes no file
  but those of its own home.

## Trusted parts

The library calls `serde_json` and `sha2`, and `str::to_lowercase` of the standard library, through
a few functions whose contracts are taken on trust. They stand in `json`, `digest` and `text`, each
with a comment that says what it claims.

What the laws assume of an action that succeeded or failed is `world::performed`: a failed write,
for one, leaves the file as it was, and perhaps a draft beside it. `durable` proves how a file is
written as a whole.
