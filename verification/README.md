# instant_astronomer_core

The logic of a point-your-phone-at-the-sky astronomy app, verified with
Verus.

`src/` holds the library. Its functions carry contracts that Verus proves,
except four small trusted wrappers in `text` (`String::push`,
`str::to_uppercase`, `str::to_lowercase`, `char::is_alphabetic`), whose
contracts Verus takes on trust:

- `cities` — the built-in city catalog, four-character Soundex codes and
  city search (prefix / substring matches first, then a Soundex fallback
  that also accepts codes equal once `w` is read as `v`).
- `search` — celestial object search over Solar System bodies,
  spacecraft, stars and constellations, prefix matches ranked first and
  capped at eight results; positions are an opaque type chosen by the
  caller.
- `search_panel` — the state of the search overlay.
- `catalog` — the line format of the extended star catalog.
- `math` — 12-hour local wall-clock text and rise / set summaries.
- `stars` — constellation line table, zodiac date ranges (with a proof
  that they cover the calendar), Solar System body names.
- `hud` — greedy word wrapping of status messages.
- `sky_view` — what a tap on the sky does (select, dismiss, toggle).
- `control_panel` — the panel's toggles and the message each flip shows.
- `text` — string helpers shared by the above.

Laws that relate several calls are stated as public proof functions named
`law_*`.

`app/` is the host side that Verus does not see: the floating-point
astronomy (sidereal time, coordinate transforms, ephemerides, sensor
fusion with `nalgebra`), the serialisable city record (`serde`) and the
glue that feeds them to the library.

`tests/` exercises the library on concrete values.
