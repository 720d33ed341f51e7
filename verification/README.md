# LiquidMon

LiquidMon is a COSMIC panel applet that monitors (and optionally controls)
Corsair Hydro AIO coolers through the `liquidctl` CLI.

- `src/` is the verified library, checked by Verus:
  - `control` — presets, manual settings, capability lookup, the argv of an
    apply, the settings fingerprint and the per-boot marker text, with the
    laws the write policy relies on (valid preset curves, duty floor, fans
    before pump, no `--non-volatile`, no write when unmanaged).
  - `liquidctl` — the device/status data and the decoding of a status reply.
  - `devices`, `device_menu` — AIO classification and the device selector.
  - `control_view`, `monitor`, `curve`, `equalizer`, `spinner` — what the
    popup says and draws, the bounded metric histories and the fan averages.
  - `text` — character-level helpers (ASCII case folding, substring search,
    decimal rendering and parsing, trimming, the closing lines of a report).
- `app/` is the applet around it: the `liquidctl` subprocess calls and JSON
  reading, the marker file I/O, the floating-point curve interpolation and
  divergence check, and the COSMIC widgets.
