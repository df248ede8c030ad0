# niconico_watcher

A bot that watches the newest niconico videos with a tag and announces the new
ones on Discord and Misskey.

- `src/` is the verified library: the watcher's state and what it posts when a
  list of videos arrives (`model`), the videos (`video`), the search request
  and the reading of its answer (`search`), the texts posted (`discord`,
  `misskey`), the wait for the next scheduled search (`schedule`), the
  logger (`logger`) and the settings (`config`).
- `app/` is the program around it: reading `config.toml`, the HTTP requests,
  the Discord client and the scheduling loop.
