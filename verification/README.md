# foxmayn-cowork

A terminal assistant that manages files in one working directory through a
tool-calling language model (OpenRouter or Ollama).

- `src/` is the verified library: the agent loop (`exchange`), the tool
  schema, planning and confirmation rules (`tools/`), path containment (`paths`), the
  stream decoders and reply conversion (`stream`, `replies`), the interface state and
  its key and event handling (`state`, `input`, `events`), slash commands, settings and
  the probe's decisions.
- `app/` is the program around it: terminal drawing, HTTP, the filesystem, SQLite
  storage, the setup wizard and the command line.
- `tests/` exercises the library on concrete values.

Every path a tool touches is checked against the working directory in canonical form
(`paths::canonical_base`, then `paths::contain_path`) before anything runs; a planned
operation only names paths under that directory.
