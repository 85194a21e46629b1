# live_reminder

A Telegram bot that keeps a list of phrases for each user and sends one of
them at random at the hours the user chose.

- `src/` is the verified library: reading commands out of messages
  (`command`), reminder hours and time zone offsets (`schedule`), the table of
  reminders started at boot (`plan`), phrase lists and how they are shown
  (`phrase`), the reply texts (`reply`), decimal numbers (`number`), text
  helpers (`text`) and the time zone service's replies (`model`).
- `app/` is the program around it: Telegram, MongoDB, HTTP requests to the
  time zone service, JSON decoding and the reminder threads.
- `tests/` runs the library on concrete inputs.
