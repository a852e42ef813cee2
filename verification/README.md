# socket_proxy

A proxy for the sockets of a systemd service. It takes the sockets that systemd passes on, relays
what arrives on them to servers, and ends when there is no more activity.

The decisions of the proxy are a verified library under `src/`:

- `events`, `event`, `event_laws`, `fd`, `signal`, `firing`: the sources of the event loop, their
  registration, lookup and reconfiguration, and what is done when they fire;
- `udp`, `udp_laws`: relaying datagrams, with a slot for each client;
- `tcp`, `pipe`: accepting connections, and moving bytes through a pipe;
- `activity`, `daemon`, `journal`, `proxy`, `userdata`: idle exit, the protocol with the service
  manager, journal entries, pairing of sockets with servers, values shared by handlers;
- `addr`, `search`, `text`: what the others share.

The library performs no I/O. Changes to be made in the event loop are returned as values, and what
the system answered is passed in. `app/` is the program: it makes the calls into libsystemd and libc.
Functions whose names start with `law_` state what holds across operations.
