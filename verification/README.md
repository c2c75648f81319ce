# RiverBorn

A card game: players bet on their hole cards and five community cards, build a team, and send it
through a dungeon. The pot goes to the team that comes out best. A match runs over many hands with
a bank that lends, and can be played against the machine or on a server.

`src/` is a library verified with Verus. It holds every rule of the game and of the server:

- `cards`, `rng`, `player`, `combat`, `game`, `ai`: one hand, from the deal to the settlement.
- `table`, `session`, `playable`: a match of many hands and its accounts.
- `net`, `room`, `table_view`, `lobby`: what a server does with the requests of its clients, and
  what each client may see.
- `client`, `hud`, `solo`, `seating`, `slots`, `captions`, `scoreboard`, `screens`, `pot`, `icon`:
  what the game does on a player's machine, short of drawing it.
- `game_model` and `lobby_model` say what a hand and a lobby are; `combat_laws`, `game_laws`,
  `picking_laws`, `session`, `lobby_laws` and `server_laws` prove what holds of them.

Aggro is counted in half points and time in nanoseconds, so that everything is a whole number.

`app/` is ordinary Rust around it: the UDP server, the JSON of the messages, and the windows,
drawn with Bevy.

`tests/` runs the library.
