# basalt_server

The game-server core of Basalt, a Minecraft server, as a verified library.

`src/` holds the rules the server applies, each with its contract:

- `slot`, `click_handler`, `click`: inventory slots, the click rules
  (left/right click, drags, double-click collection), click packet
  decoding and the slot layouts of the player inventory, crafting table
  and chest windows.
- `window`, `input`: routing a window click or shift-click to its rule,
  and the game loop's decisions on other player input (digging, hotbar
  selection, sneaking, creative slots, closing a window).
- `inventory`, `recipe`, `autofill`: quick-move insertion, drops, the
  crafting grid and output, and the recipe-book auto-fill (grid placement,
  ingredient requirements, inventory drain, applying the fill).
- `container`: chest views, slot routing, viewer counts, window contents.
- `world`, `streaming`, `chunk`: coordinates, window ids, active chunks,
  delta chunk streaming and batching, and the flat spawn chunk encoding.
- `config`, `messages`, `context`, `commands`, `handlers`: settings and
  plugin selection, outgoing packets, the response queue, slash commands,
  and the built-in event handlers.

`app/` holds what stays outside the proofs: reading `basalt.toml`, the
logger, the network/game-loop channels and the floating-point arithmetic.

`app/` is not a runnable server. It has no TCP listener, no game loop and
no registration of the handlers on an event bus: those are built on the
project's own protocol, networking, ECS and event-bus crates, which this
repository does not contain. What `app/` offers are the pieces around the
library that need no such crate; a server binary would drive the library
from its listener and tick loop through them.
