# wifi

Wireless network management for a device that runs NetworkManager: adding a network with
its password, connecting to a stored network (and falling back to the previous one when
that fails), deleting a stored network without cutting the device off, reporting the
stored and visible networks, and setting the regulatory country.

- `src/` is the verified library. It builds the command lines of `nmcli`, `iw`,
  `iwgetid` and `ifconfig`, reads their reports, and decides what to do next. The
  multi-step operations (`procedure.rs`) are state machines: each step takes the reply to
  the previous action and gives the next action or the result, so that the library never
  runs a process or waits itself. `laws.rs` states and proves the properties that hold
  across steps and functions.
- `src/outside.rs` holds the trusted boundary: the calls into `regex`, `isocountry` and
  the two `String` functions that vstd does not specify.
- `app/` is the command-line program that runs the actions with `tokio`, prints tables
  with `prettytable` and serialises reports with `serde_json`.
- `tests/` exercises the library on concrete reports and replies.
