# crabcode

The session, streaming and input logic of a terminal coding agent, written in Rust and verified
with Verus.

- `src/` is the library. Every function states what it returns and what it changes, over a
  mathematical view of the application (`AppView` in `src/app.rs`). What is to be done outside,
  such as starting a turn, playing a sound or saving a setting, is recorded as an `Effect`, in
  order; what came of it, and whatever else comes from outside, is handed in as plain values.
- `app/` is the terminal around it: the clock, the channels, the events of the terminal, drawing,
  and the machine's services, the widgets and the painter behind traits.
- `tests/` runs the library.

## Where things are

| Part | Modules |
| --- | --- |
| State of the application | `state`, `app`, `ui`, `session`, `message`, `queue` |
| Turns and what streams into them | `chunks`, `clock`, `drain`, `live`, `events`, `transcript`, `stream`, `turns`, `compaction` |
| Keys, mouse and paste | `keys`, `mouse`, `paste`, `selection`, `answers`, `choices`, `commands` |
| Dialogs and lists | `dialogs`, `catalog`, `session_list`, `history`, `navigation`, `requests`, `tasks` |
| The screen | `focus`, `layout`, `screen`, `palette`, `usage`, `terminal_title` |
| Start, workspaces, remote control | `startup`, `workspace`, `remote`, `prompting`, `agents`, `reasoning` |
| Words and documents | `text`, `titles`, `json`, `sorting` |
| What holds across calls | `keeping`, `apart`, `closing`, `family`, and the functions named `law_...` in the other modules |

Functions named `law_...` state and prove what holds of the library as a whole, such as that a
session which is left and come back to is as it was, or that what one agent writes reaches no other
session.

The calls into other crates (`serde_json`, `shlex`, `ratatui`'s layout, `dirs`, tokio's channels)
and the readings of the clock stand behind small functions marked `external_body`; the comment on
each says what is relied on.
