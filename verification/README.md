# verify_bot

A Discord bot that links server members to accounts in a game database,
gives and takes their roles, shows player records to staff, and keeps chat
bans in step with Discord bans.

- `src/` is the verified library (Verus): configuration checks and lookups
  (`config`, `table`), the records of the database API and how its answers
  are read (`api`), role planning (`roles`), note rendering, sorting and
  splitting over embeds (`notes`), the answers of the slash commands
  (`commands`, `player`), the bulk commands' counting and reports (`bulk`),
  the reactions to joins and bans (`events`), and text helpers (`text`).
- `app/` is the program around it: reading `config.toml`, the Discord client
  (poise/serenity), HTTP requests (reqwest) and the async runtime (tokio).
- `tests/` runs the library on concrete values.
