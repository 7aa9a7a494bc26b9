# misaki

The logic of the Misaki Discord self-bot, verified with Verus.

- `src/` is the library: the settings store (`settings`), command parsing
  and dispatch (`command`), the built-in plugins' aliases and answers
  (`plugins`, `configure`, `memory`, `misconception`, `mock`, `purge`,
  `react`, `transform`, `latex`, `evaluate`), and the text helpers they
  share (`text`, `pattern`, `number`).
- `app/` is the bot itself: the Discord connection, the memory database,
  the word file, the LaTeX renderer over HTTP and plugins loaded from
  shared libraries. It hands plain values to the library and performs what
  the library decides.
- `tests/` runs the library on concrete inputs.
