# themesync

The host side of a link that keeps a smartwatch's colours in step with the Omarchy desktop
theme, and lets the watch choose a theme for the desktop.

- The active theme is resolved from Omarchy's files, mapped to the watch's colour roles, and
  encoded as a packet.
- The daemon advertises that packet as a signed beacon, hears the watch's signed requests, and
  applies the themes they name.
- The list of installed themes is transferred to the watch in frames, with a keyed commit.

## Layout

- `src/` is the library, written in Verus: palettes, packets, the beacon and its requests, the
  theme list and its transfer, the daemon's state machine, the configuration files, the texts
  of the commands. Every function has a contract, and the properties that span functions are
  public proof functions named `lemma_..`.
- `tests/` runs the library on concrete values.
- `app/` is the program around it: arguments, files, sockets, Bluetooth, and what needs
  floating point (luminance and contrast).

## What is not proved

What the library takes from outside is declared with a contract and believed: HMAC-SHA256 and
the constant-time comparison (`src/beacon.rs`), JSON objects (`src/json.rs`), and a few functions
of the standard library on strings (`src/text.rs`). The doc comment above each says what is
claimed of it.
