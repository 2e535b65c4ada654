# takeashot

A screenshot tool for KDE Plasma on Wayland: press Pause (or run with
`--now`), pick a region — by dragging, or by clicking a window under the
pointer — annotate it, and press Enter or double-click to put the image on
the clipboard.

## Layout

- `src/` — the verified library (Verus). Everything that decides:
  - `geom` — rectangles, points and the compositor's fixed-point pointer positions;
  - `selection` — the selection state machine (empty, pending snap, creating,
    confirmed), its handles and cursors;
  - `snap` — the window under the pointer;
  - `overlay` — input routing between selection, annotations and toolbar,
    double-click and key handling;
  - `annotation` — the annotation list, hit testing and what a press starts;
  - `ui::toolbar` — tools and toolbar placement;
  - `capture`, `compose`, `blur` — cropping, pixel conversion, the composition
    of the final image from per-output renderings, and the blur pyramid;
  - `kwin` — capture metadata and window records.
- `app/` — the program around it: D-Bus (zbus), the Pause hotkey (evdev),
  KWin capture and scripting, the Wayland layer surfaces (smithay-client-toolkit),
  GPU rendering (wgpu, egui), floating-point annotation geometry (glam, lyon),
  and the clipboard.
- `tests/` — tests of the library.
