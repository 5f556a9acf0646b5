# ccv3_pp

The integer core of the Combo Consistency V3 performance calculator for
osu!standard, written in Verus.

- `src/` is the verified library: hitresult generation from partial score
  parameters (`performance`), the exact closest-split searches it rests on
  (`search`), score states and their accuracy (`score_state`), the laws the
  generation keeps (`laws`), the pairing of hit objects into difficulty
  objects (`difficulty`, `aim_rx`), the 4-note chunks and 8-note pairs of the
  relax miss system (`chunks`), mod flags (`mods`) and stable rank positions
  (`ranks`).
- `tests/` runs the library on concrete scores.
- `app/` holds the floating-point strain and performance formulas, which call
  into the library for everything that is decided on integers.
