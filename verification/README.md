# anime_bot

A Discord bot for an anime community: a guessing game played on a player's
AniList list, a team-swap event (teams submit, claim and trade anime), a
server-wide list of everyone's scores, and compatibility checks between users.

- `src/` is the library, verified with Verus: the rules and computations of
  every feature, stated in `requires`/`ensures` contracts over mathematical
  models. The team-swap commands are step functions: given what a command has
  learnt so far, they say what to look up next, what to answer, or what to
  change, and their contracts state the event's rules.
- `tests/` runs the library on concrete values.
- `app/` is the bot around it: Discord commands (poise/serenity), AniList
  requests (reqwest/serde), the SQLite databases (rusqlite), the web API
  (warp), and the floating-point statistics of the compatibility check.
