# sylk_bot

A Discord bot that runs votes with deadlines and links Discord channels to
Minecraft servers.

- `src/` is the verified library: votes, their deadlines and how they are
  counted and filed (`commands::vote`), the texts of the other commands
  (`commands::general`, `commands::mallet`), filing cloud records by id
  (`utils::cloud`), the requests sent to mc-docker (`utils::chatbridge`), and
  the Taurus websocket protocol and bridges (`utils::mc`).
- `app/` is the bot itself: the Discord commands and event handling (poise,
  serenity), the cloud store (firestore), the HTTP and websocket connections,
  and the loop that ends votes every ten seconds.
- `tests/` runs the library on concrete values.
