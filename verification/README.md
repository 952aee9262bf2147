# translate-bot

A Matrix bot that translates the messages of its rooms with a
LibreTranslate-compatible backend, and keeps its translations in step with
edits and redactions of the originals.

The crate has two parts.

* `src/` is the library: every decision of the bot, written in Verus and proved
  against its contracts. It does no I/O, but for reading the clock. `handler`
  drives one message; each of its steps names the one outside action to perform
  next and takes what came of it. The statements about the library as a whole
  are the public proof functions whose names begin with `law_`.
* `app/` is the program around it: Matrix, HTTP, SQLite and the configuration
  file.

The library rests on a few functions that are not proved but described by a
contract: identifiers are read by ruma (`ids`), Markdown is rendered by
pulldown-cmark (`markup`), and letters, quoting and the time come from the
standard library (`text`, `report`, `outcome`).

`tests/` runs the library on concrete values.
