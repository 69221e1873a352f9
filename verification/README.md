# LeagueCord

LeagueCord gives League of Legends teams a temporary voice chat. A player
creates a group on the website and shares its link; whoever joins the Discord
server through the group's invite lands in the group's private text and voice
channels. A group goes away with its last member, and so does one left with
one member or fewer five minutes after it was made; its invite lives a quarter
of an hour and serves five joins.

## Layout

- `src/` — the verified library (Verus):
  - `text.rs`: decimal numbers written and parsed as `str::parse` does;
  - `shared.rs`: the group summary sent to the website;
  - `data/`: groups and group lists, the invite tracker and the spam tracker
    of the creation page (both over one verified key table), the server's fixed channels and roles, and what is
    created for a new group (its id, permissions and invite);
  - `bot/`: the decisions of the Discord handlers (joins and departures,
    administration commands, purge, help, text command parsing);
  - `server/`: the decisions of the web routes (static files, group
    creation) and the configuration report logged at start-up;
  - `front/`: the state and texts of the web front end's components;
  - `laws.rs`: properties that span several operations;
  - `clock.rs`: the std clocks the library reads, and `EpochTime`, the
    plain-valued time that the library's signatures take.
- `app/` — the program around it: the serenity client and its handlers, the
  Rocket server and its routes, and the yew front end.
- `tests/` — tests of the library on concrete values.
