# Deskoryn

One cursor, one clipboard and one file space over several computers: a daemon on
each machine shares the mouse and keyboard across a virtual desktop, keeps the
clipboards alike, moves files and plays sound from one machine on another.

- `src/` is the library. Every rule of the daemon and of its tray is a function with
  a contract that Verus proves: the geometry of the desktop, how the cursor crosses
  from one machine to another, hotkeys, the wire format, pairing and trust, clipboard
  and file synchronisation, the jitter buffer, the dialing and session rules, and the
  state of the tray. Functions whose name starts with `law_` state what holds over
  several of them.
- `tests/` runs the library on concrete values, with the outside crates linked.
- `app/` is the daemon around the library, and a tray on the terminal: command line,
  sockets, QUIC, mDNS, input devices, the clipboard of the desktop, sound and files on
  disk. It is ordinary Rust, and leaves the rules to the library.

The library calls a few outside crates (`blake3`, `bytes`, `hex`, `image`, `rand`,
`rcgen`) through small wrappers. What is assumed of each is stated in the wrapper's
contract and described above it.
