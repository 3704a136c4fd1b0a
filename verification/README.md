# omarchy-mic

Microphone management for PipeWire desktops: DeepFilterNet noise
suppression, microphone selection, and the Shure MV7's hardware DSP over
USB HID.

Layout:

- `src/` — the library, verified with Verus:
  - `text.rs`: trimming, searching, line splitting, number parsing and
    formatting over character sequences;
  - `mv7.rs`: the MV7's HID protocol — reports, replies, state, commands and
    the admin handshake as a state machine;
  - `pipewire.rs`: reading `wpctl status`, `pw-cli info` and `pw-link -l`;
  - `noise.rs`: the filter configuration, saved settings, and the
    enable/disable/switch-input procedures as a state machine;
  - `commands.rs`: the decisions behind the command-line commands.
- `app/` — the `omarchy-mic` command: argument parsing, files, processes,
  the HID device, JSON output.
- `tests/` — tests of the library on concrete inputs.
