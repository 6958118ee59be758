# autogram

A Telegram automation client (send messages and press reply buttons, watch
chats and users and pass their messages on to webhooks, guess invitation
codes, register accounts with bots), split in two:

- `src/` — the verified library: every decision the client makes between
  two calls to TDLib. Chat-list paging (`chat_search`), code guessing and
  the code bot's answers (`guess_code`), registering with a bot and watching
  groups (`account`), pressing buttons (`chat`, `message`), webhook and bot
  notices (`relay`), the login flows (`auth`), the commands (`config`), and
  the character-level text operations they rest on (`text`).
- `app/` — the program around it: command-line parsing, the TDLib client,
  the message loops, HTTP posting and logging.
