# bevy_game

The rules of a turn-based RPG set in a spirit realm, as a library verified
with Verus: every function in `src/` carries a `requires`/`ensures` contract
that Verus proves, and the laws the game relies on (ability ids survive a
pack/unpack round trip, a flip of polarity changes only the polarity, the
cheapest journey can be walked back at the same cost, a behaviour tree's
selector fails exactly when all its children fail, …) are stated as proof
functions beside the code they speak of.

Layout:

- `src/` — the library. Abilities and the ability tree, the five-phase
  element wheel, stat pools and modifiers, equipment and inventory, items,
  turn order, the combat rules (reactions, mitigation, growth, class
  passives), battles and summons, the behaviour-tree AI, the battle command
  bar, world areas and route planning, cities and clans, restoration
  activities, the battle log and sheet texts, the dialogue editor and the
  data editors' request logic. Random draws go through `dice`, the one
  place that calls `rand`.
- `tests/` — tests that run the library on concrete values.
- `app/` — the data editors' HTTP server (`tiny_http`, RON and JSON through
  `serde`), and readers for the game's area and economy data files.
