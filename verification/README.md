# call

The state of a voice and screen-sharing room, as one of its participants sees it:
who is in the room and what they share, the calls that are under way, the video
tracks of the others, and the sharing of one's own screen and projects.

`src/` is a Verus library. A `Room` never talks to a server. Each of its methods
changes the state, returns the message to send, if there is one, and records in a
`Context` what the host is to do. The host does it, and reports the outcome through
the next method.

- `model` says what the state of a room is and what each operation does to it. The
  contracts of the methods of `Room` state that they do exactly that.
- `laws` proves what follows: what holds of every room at any time, what one
  operation undoes of another, who is in the room after an update and who is counted,
  and what the observers are told.
- `identity`, `tracks`, `participant`, `media`, `project`, `connection`, `proto`,
  `event` and `error` hold the parts.

`app/` runs a room on a single-threaded executor against a collaboration server and
a media server, which it takes as traits. It is ordinary Rust and is not verified.
