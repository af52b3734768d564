# escape_core

The deterministic core of a text adventure with a hex-grid combat system,
written in Verus: every function of the library carries a contract that
Verus proves.

- `src/` — the verified library.
  - Combat: `combat_hex` (axial hex geometry), `combat_contract`
    (simulation versions, manifests, seeds), `combat_state` (pre-combat state
    and effect catalogues), `combat_simulation` (movement and targeting per
    tick), `combat_execution` (runs and logs), `combat_resolution` (attacks,
    damage, effects), `combat_conclusion` (outcome reports),
    `combat_opportunity` and `combat_intervention` (player interventions),
    `combat_runtime` (step-wise runs, checkpoints, segment seeds),
    `combat_spectator` (what a spectator is shown).
  - Story: `state`, `turn` (the printer scene and ability checks),
    `story_rules` (resources, costs, conditions, passing a turn, moves and
    item uses), `story_turn` (outcomes, the current ending or encounter, the
    view of a turn and taking an action), `save`, `effects`, `content`
    (content bundles and their index), `scene_page`, `final_epilogue`.
  - Shared: `text`, `json` (canonical JSON text), `order` (byte order and
    stable sorting).
- `tests/` — tests of the library on concrete values.
- `app/` — what needs serde or floating point: JSON saves, content bundle
  loading, and the percentages and intensities a renderer shows.
