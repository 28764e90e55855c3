# emukc_bootstrap

Parsers and validators that turn third-party game-data sources (wiki dumps,
community databases, the game's own master data and client script) into the
records an emulated game server boots from. The library is written in Verus:
each function in `src/` states what it returns in a contract. Verus proves
the library's own functions; the few small wrappers around `regex`,
`serde_json` and `std` (marked `external_body`) are trusted to meet theirs.

## Layout

- `src/` — the verified library.
  - `text.rs` — character-level text handling shared by the parsers
    (splitting, trimming, searching, decimal numbers).
  - `pattern.rs` — the regular-expression matches the parsers ask of `regex`.
  - `node_label.rs`, `grid.rs`, `route_table.rs`, `route_text.rs`,
    `route_model.rs`, `route_encoding.rs`, `label_overlay.rs`,
    `map_route_rules.rs`, `tsunkit_nav.rs`, `ship_type.rs` — map data: node
    labels, the route tables a map page holds and their section keys, the
    condition fragments the route text is built from, ship-type names, the
    label overlay and the topology validator. The route-condition and
    enemy-table grammars of the wiki pages are not part of the library: they
    rest on a route-text normalisation, a clause type, a ship-name table and
    patterns whose definitions this project does not have, and their clauses
    carry floating-point probabilities.
  - `kcwiki*.rs`, `kcwikizh_kcdata.rs` — ship, equipment, enemy and
    improvement records of the wiki dumps.
  - `kaisou.rs` — remodel requirements from the master data and client script.
  - `expedition.rs`, `kccp_quest.rs`, `quest_reward.rs`, `tsunkit_quest.rs`,
    `tsunkit_requirement.rs`,
    `label_type.rs`, `kc3kai_quote.rs` — expeditions, quests, rewards, voices.
  - `populate.rs`, `progress.rs` — the cache-population run's class lists,
    how failures are split between its passes, and its summary texts.
- `tests/` — tests of the library on concrete inputs.
- `app/` — file reading, JSON/YAML decoding, progress bars and printing around
  the library.
