# grand_pattern_venue

Venues are agents: a venue absorbs events, keeps a weighted memory of them,
develops a dominant trait and greets the agents that visit it.

- `src/` is the verified library (Verus). It holds everything about a venue
  that is decided on integers and text: event kinds with their personality
  slots, base weights and vibe nudges (`kind`), agent counting (`agents`),
  order keys for the bit patterns of doubles (`keys`), the choice of the
  dominant trait and of the three heaviest echoes (`ranking`), and the vibe
  descriptions, voice lines, greeting and abstract of the moment (`voice`).
  Doubles reach it as their bit patterns (`f64::to_bits`).
- `app/` is the plain-Rust venue: the `Venue`, `Reading`, `Event` and `World`
  types with their real-valued vibe and personality, which call the library
  for every discrete decision.
- `tests/` exercises the library.
