# jobman

A jailbreak manager for Kindle e-readers: it blocks or allows OTA updates,
switches SSH over USB or Wi-Fi on and off, updates the jailbreak environment,
reports battery health and network state, and manages the userstore in
recovery mode.

- `src/` is the verified library (Verus): the jobs and their shell commands
  (`ota`, `ssh`, `device`), the state machine that runs a job one command at a
  time (`job`), how a command's outcome is read (`process`), and the text
  handling the answers need (`text`).
- `app/` is the program: the window, running the commands, reading the
  configuration file, and the floating-point battery arithmetic.
- `tests/` exercises the library on concrete values.
