# mahjong_core

Tiles, hands, hand decomposition and fan scoring for Mahjong Competition
Rules (MCR), verified with Verus.

- `src/structs`: tiles and their identifiers, the sets (chows, pungs,
  kongs, pairs), tile counts packed four bits per tile, hands, winds and the
  wall.
- `src/solver`: taking the concealed tiles apart into sets and a pair
  (standard hands, seven pairs, thirteen orphans), the view of a
  decomposition that the fan rules read, the 81 fan rules, and the search
  for the best compatible selection of fans.
- `tests`: scenarios for every part, among them the rulebook examples.

What is proved, in short: every decomposition returned holds exactly the
tiles of the hand, and every decomposition of the hand is returned (so a
hand is a winning hand exactly when a decomposition exists); each listing
comes once, honors first and then the suits, each part by rank; each fan
rule fires exactly on the hands its specification describes; the
selections of fans are the best ones that respect exclusions and count no
fan twice, each listed once, in depth-first order; a hand that scores
nothing but flowers earns Chicken Hand; fan names are all different; and
the tile encoding round-trips.
