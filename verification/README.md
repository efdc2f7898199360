# tetrox

A falling-block puzzle game engine whose behaviour is proved with Verus.

`src/` is the verified library:

- `pieces/` — piece kinds (SRS and ASC tetrominoes, the smaller minoes,
  pentominoes): shapes, rotation pivots (in half squares), names and images.
- `kicks.rs` — rotation states and kick tables (SRS, ASC, basic, TETR.IO half
  turns).
- `field.rs` — the playfield: moving, turning with kicks, holding, hard drops,
  line clears and lock-delay bookkeeping, all stated over a model of the
  field (`FieldView`).
- `spins.rs` — spin detection (three-corner T-spins, immobile pieces).
- `lib.rs` — coordinates and the bag randomizer (the shuffle comes from the
  `rand` crate).
- `input.rs`, `keybinds.rs` — input states (left and right suppress each other),
  key bindings kept in a `bimap` two-way map, and capturing a key to bind.
- `config.rs` — the settings the game reads and the look (skin, vertical
  offset), how each settings message changes them, and the goal presets.
- `board.rs` — the game board: what each key press, key release and timer
  does, which pieces the next queue shows and the bag deals, and resets and
  setting changes; the interface runs the timers.
- `stats.rs`, `goal.rs`, `canvas.rs` — line clear and perfect clear texts,
  combo and back-to-back counts, the lines goal, and what is drawn where:
  each square's pixel position and the path of its image in the chosen skin.

`tests/` runs the library on concrete games. `app/` holds what the library
cannot: floating-point positions and times, and the settings as saved JSON.
