# hyprdeck

A command-line control deck for a Hyprland session: touchpad, volume,
Wi-Fi, workspaces, monitors, screenshots, clipboard, battery and system
metrics.

## Layout

- `src/` is the verified library, written in Verus. It holds the parsing
  of tool output (`nmcli`, `wpctl`, `hyprctl`, `/proc`, sysfs), the
  decisions of each command (what to run, with which arguments, what to
  print, which error to give), and proofs of the properties these keep,
  such as nmcli's field splitting undoing its escaping, or the touchpad
  state file matching the touchpad setting.
  - `text.rs`: characters, lines, words, trimming, decimal numbers.
  - `cli.rs`: the requests as plain values.
  - `commands/modules/`: one module per command.
- `app/` is the program around it: argument parsing with clap, running
  the external tools, reading files, interactive prompts, JSON output and
  the floating-point arithmetic (percentages, rates, energies).
- `tests/` runs the library on concrete inputs.
