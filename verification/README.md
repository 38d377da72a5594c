# xodus

The logic of the xodus launcher and of its service, written in Verus. Verus
proves that the functions under `src/` keep their contracts; three contracts, on
calls that leave the library, it believes. These three stand in `src/outside.rs`:
`std::str::from_utf8`, `chrono::DateTime::parse_from_rfc3339` and `String::push`.

- `ipc`, `message`, `path`: the frames of the service socket, the message types,
  and where the socket lives.
- `xml`, `xuser`, `token`, `xbox`, `proto`: how the service answers a request,
  one step at a time.
- `daemon`, `service`: the life of the service, as it sees itself and as a
  launch sees it.
- `run`, `wine`, `package`, `ramdisk`, `exe`, `launch`: one launch of a game,
  from the search for wine to the exit code.
- `gameconfig`: the manifest of an install.
- `launch_laws`, `run_laws`: what holds of every plan and of every launch.
- `text`: operations on text.
- `outside`: the calls that leave the library, and what is relied on about each.

Whatever has to wait for the outside world is a state machine here: a state says
what has to be done next, and the event that comes of it leads to the next state.

`app/` performs these steps: it holds the sockets, the processes, the files and
the XML bodies. The token store, the online services and the reader of packages
come in through the traits of `app/backend.rs`.

`tests/` runs the library on concrete values.
