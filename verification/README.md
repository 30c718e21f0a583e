# game_engine

The rules of a small voxel game, verified with Verus: item stores and crafting, the
hotbar, entity bookkeeping, integer block geometry, block interactions, the message
routing between them, which chunks to generate and how ore veins grow in them.

Layout:

- `src/` — the verified library.
  - `enum_array.rs`: enums numbered by their variants, and arrays indexed by them.
  - `data.rs`: item and block kinds with their properties.
  - `recipe.rs`: crafting recipes.
  - `container.rs`: item stores (`Container`, `Inventory`): adding, removing, crafting.
  - `hotbar.rs`: the hotbar, the held item and breaking strength.
  - `player.rs`: what a new player starts with.
  - `geometry.rs`: grid points, block positions and integer boxes.
  - `blocks.rs`: chests and crafters.
  - `block_states.rs`: the states of the world's stateful blocks, by position.
  - `state.rs`: the game state and how it handles each message and click.
  - `game.rs`: breaking and placing blocks, moving items between stores.
  - `messages.rs`: message types, the message queue and message routing.
  - `controls.rs`: movement key state of the player controllers.
  - `entity.rs`, `component_manager.rs`: entity ids and component rows.
  - `chunks.rs`: which chunks around the player to generate, nearest first.
  - `world_gen.rs`: chunk block storage and the ore pass of chunk generation.
  - `debug.rs`: the debug text window.
- `tests/` — tests run against the compiled library.
- `app/` — the driver around the library: the global message queue, floating-point
  geometry, type-erased component columns and the crafting clock.
