# mellow

A Discord bot that syncs server members' profiles with the accounts they
link on HAKUMI (Roblox, Patreon and others): it gives and takes roles,
sets nicknames, bans or kicks by the server's sync actions, runs the
server's visual scripting documents, and logs what it did.

## Layout

- `src/` is the library, verified with Verus: the sync actions and their
  criteria (`syncing`), visual scripting variables, documents and their
  evaluation (`visual_scripting`), the server log and its texts (`server`),
  the replies to commands (`interaction`, `commands`), the Patreon and
  webhook-signature logic (`patreon`, `signature`), onboarding and text
  helpers. Each public function states what it returns in its contract.
- `tests/` holds the tests of the library.
- `app/` is the bot around it: the Discord gateway and HTTP requests, the
  HTTP API and webhooks, the record store, and the loops that carry out
  what the library decides.
