# scrut

A command-line tool that scans source trees for secrets, malicious commands,
hard-coded values and code-quality problems, and generates passwords, random
numbers, SHA-256 digests and checksum listings.

## Layout

- `src/` is the library, written in Verus and verified: the scan rules and the
  messages they produce, scan masks, `.gitignore` handling and file exclusion,
  password, digest and checksum generation, configuration changes, confirmation
  answers and log settings. Each public function states its behaviour in its
  contract; the `law_*` proof functions state properties that span functions.
- `app/` is the program around the library: argument parsing, walking the
  working directory, reading and writing files, the TOML configuration file,
  console prompts and the log file.
- `tests/` runs the library on concrete values.
