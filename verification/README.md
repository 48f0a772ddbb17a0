# atk_tray_monitor

Battery monitoring for ATK mice, as a library whose behaviour is stated in
Verus contracts and proved, plus a thin tray program around it.

## Library (`src/`)

- `text`: whitespace, ASCII case, search, trimming, word collapsing,
  joining, and decimal / hexadecimal rendering and parsing.
- `device`: which HID interfaces may be an ATK mouse, their scores, labels
  and ranking, and the readable product name of a candidate.
- `snapshot`: battery readings and failure reports, time stamps, and the
  smoothing of doubled readings while charging.
- `icon`: rectangles on an RGBA canvas, the 32 x 32 battery icon, and the
  tray tooltip.
- `menu`: menu texts per language, item identifiers, and the action each
  item asks for.
- `report`: the diagnostics report copied to the clipboard.
- `startup`: settings keys and defaults, launch visibility, and the update
  source configuration.

## Program (`app/`)

The window system, the HID bus, the settings store, the clipboard and the
updater are driven from `app/`, which calls the library for every decision.
